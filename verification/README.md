# rv

A RISC-V (RV32IMAFD with compressed instructions) decoder, interpreter and
WebAssembly block compiler, written in Verus, with a small Linux-like system
interface that is enough to run a statically linked musl program such as the
bsnes emulator core.

## Layout

- `src/instr.rs`, `src/instr/data.rs`: the instruction set.  `decode` and
  `decode_compressed` are proved equal to the specification functions
  `spec_decode` and `spec_decode_compressed`, which read the fields of an
  instruction word.
- `src/cpu.rs`, `src/cpu/memory.rs`: floating-point registers (NaN-boxed
  singles) and the paged 32-bit address space.  Loads and stores are
  specified over a map from addresses to bytes, with laws such as "a load
  after a store gives back what was stored".
- `src/interpreter.rs` and `src/interpreter/`: the interpreter.  Instructions
  are decoded into blocks that are cached per entry address; running a block
  is proved equal to running its operations one after another
  (`spec_execute`, `spec_run`).  `float.rs` checks floating-point operands and
  does the bit-level operations; `linux.rs` parses ELF files (through the
  `object` crate) and loads program images, and serves system calls and
  breakpoints; `video.rs` reads frames out of guest memory as RGBA bytes.
- `src/translate.rs` and `src/translate/`: splitting code into blocks, the
  WebAssembly code chosen for each instruction and each block end, the
  module's layout (function indices, function table, exports), and the whole
  module, section by section, from the ELF file (`translate_elf`).
- `tests/`: tests of the library on concrete programs and values.
- `app/`: the program around the library: it reads the files, runs the
  guest's subroutines (doing the floating-point arithmetic and printing what
  the guest logs, and reading the host clock for the guest's
  `clock_gettime`), or, with `translate` as its first argument, encodes the
  translated module with wasm-encoder and writes it.
