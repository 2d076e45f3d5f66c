use vstd::prelude::*;

use crate::cpu::FRegister;
use crate::cpu::memory::{
    Memory, MemoryError, load_bytes, byte_addr, bytes_at, store_bytes_result, store_bytes_state, initially_mapped,
    initial_byte, le_bytes_u16, le_bytes_u32, le_bytes_u64, u16_from_le, u32_from_le, u64_from_le,
};
use crate::instr::{DecodeError, Register};
use vstd::utf8::{valid_utf8, decode_utf8};

pub mod exec;
pub mod float;
pub mod linux;
pub mod video;

verus! {

/// Number of slots in the direct-mapped cache of recently run blocks.
pub const HOT_SIZE: usize = 0x4000;

/// Why execution stopped with an error.
#[derive(Debug, Clone, Copy, PartialEq, Eq, Structural)]
pub enum ExecError {
    /// A memory access failed.
    Memory(MemoryError),
    /// An instruction could not be decoded.
    Decode(DecodeError),
    /// The reserved C.LWSP encoding with rd = x0 was met.
    ReservedCompressed,
    /// The instruction is not implemented.
    NotImplemented,
    /// A rounding mode other than to-nearest-even (or dynamic) was asked for.
    RoundingModeNotImplemented,
    /// An operand that must be x0 was not.
    NonZeroOperand,
    /// The signed remainder of the most negative number by -1 overflows.
    RemainderOverflow,
    /// Execution reached address 0 (a missing callback); holds the value of ra.
    ExecuteAtZero(u32),
    /// A subroutine was started while another was running.
    AlreadyRunning,
    /// A block grew to as many instructions as the address space has bytes.
    BlockTooLong,
    /// Bytes read as a string were not valid UTF-8.
    InvalidUtf8,
    /// No NUL byte ends a string within the whole address space.
    StringTooLong,
    /// The rounding-mode or operand field of a floating-point instruction
    /// selects no operation.
    InvalidFloatOp,
}

/// Scanning the NUL-terminated string at `addr` from its byte `i` on: the
/// index of the terminating NUL, or why there is none.
pub open spec fn scan_c_string(m: Map<u32, u8>, addr: u32, i: nat) -> Result<nat, ExecError>
    decreases 0x1_0000_0000 - i,
{
    if i >= 0x1_0000_0000 {
        Err(ExecError::StringTooLong)
    } else {
        let a = byte_addr(addr, i as int);
        if !m.dom().contains(a) {
            Err(ExecError::Memory(MemoryError::OutOfBoundsLoad(a)))
        } else if m[a] == 0 {
            Ok(i)
        } else {
            scan_c_string(m, addr, i + 1)
        }
    }
}

/// The characters of the NUL-terminated UTF-8 string at `addr`.
pub open spec fn c_string(m: Map<u32, u8>, addr: u32) -> Result<Seq<char>, ExecError> {
    match scan_c_string(m, addr, 0) {
        Ok(n) => if valid_utf8(bytes_at(m, addr, n)) {
            Ok(decode_utf8(bytes_at(m, addr, n)))
        } else {
            Err(ExecError::InvalidUtf8)
        },
        Err(e) => Err(e),
    }
}

/// `String::from_utf8`: the string that `bytes` encode, when they are valid
/// UTF-8.
#[verifier::external_body]
pub(crate) fn string_from_utf8(bytes: Vec<u8>) -> (r: Option<String>)
    ensures
        r is Some <==> valid_utf8(bytes@),
        r matches Some(s) ==> s@ == decode_utf8(bytes@),
{
    String::from_utf8(bytes).ok()
}

/// The state that instructions see: the program counter, the integer and
/// floating-point registers, and the mapped memory.
#[verifier::ext_equal]
pub struct MachineState {
    pub pc: u32,
    pub x: Seq<u32>,
    pub f: Seq<FRegister>,
    pub mem: Map<u32, u8>,
}

#[verifier::external_type_specification]
#[verifier::external_body]
pub struct ExBump<const MIN_ALIGN: usize>(bumpalo::Bump<MIN_ALIGN>);

#[verifier::external_type_specification]
#[verifier::external_body]
pub struct ExFnvHasher(fnv::FnvHasher);

#[verifier::external_type_specification]
#[verifier::external_body]
#[verifier::reject_recursive_types(H)]
pub struct ExBuildHasherDefault<H>(std::hash::BuildHasherDefault<H>);

/// The interpreter's state: registers, memory and the caches of decoded
/// blocks, which live in `arena`.
pub struct Interpreter<'arena> {
    arena: &'arena bumpalo::Bump,
    pc: u32,
    x: Vec<u32>,
    f: Vec<FRegister>,
    memory: Memory,
    hot_cache: Vec<Option<(u32, exec::Block<'arena>)>>,
    block_cache: fnv::FnvHashMap<u32, exec::Block<'arena>>,
    block_scratch: Vec<exec::Op>,
}

/// The state of a fresh interpreter's registers: all zero but the stack
/// pointer.
pub open spec fn initial_x() -> Seq<u32> {
    Seq::new(32, |i: int| if i == 2 { 0xfffffff0u32 } else { 0u32 })
}

impl<'arena> Interpreter<'arena> {
    pub closed spec fn state(&self) -> MachineState {
        MachineState { pc: self.pc, x: self.x@, f: self.f@, mem: self.memory@ }
    }

    pub closed spec fn wf(&self) -> bool {
        &&& self.x@.len() == 32
        &&& self.x@[0] == 0
        &&& self.f@.len() == 32
        &&& self.memory.wf()
        &&& self.hot_cache@.len() == HOT_SIZE
    }

    /// x0 reads as zero in every well-formed state.
    pub proof fn law_x0_is_zero(&self)
        requires
            self.wf(),
        ensures
            self.state().x[0] == 0,
            self.state().x.len() == 32,
            self.state().f.len() == 32,
    {
    }

    /// A fresh interpreter whose blocks will live in `arena`: pc at the
    /// "returned" sentinel u32::MAX, the stack pointer at 0xfffffff0, other
    /// registers zero, and the initial memory map.
    pub fn new(arena: &'arena bumpalo::Bump) -> (r: Interpreter<'arena>)
        ensures
            r.wf(),
            r.state().pc == u32::MAX,
            r.state().x == initial_x(),
            r.state().f == Seq::new(32, |i: int| (FRegister { bits: 0 })),
            forall|a: u32| #[trigger] r.state().mem.dom().contains(a) <==> initially_mapped(a),
            forall|a: u32| initially_mapped(a) ==> #[trigger] r.state().mem[a] == initial_byte(a),
    {
        let mut x: Vec<u32> = Vec::new();
        let mut f: Vec<FRegister> = Vec::new();
        let mut i: usize = 0;
        while i < 32
            invariant
                i <= 32,
                x@.len() == i,
                f@.len() == i,
                forall|j: int| 0 <= j < i ==> #[trigger] x@[j] == 0,
                forall|j: int| 0 <= j < i ==> #[trigger] f@[j] == (FRegister { bits: 0 }),
            decreases 32 - i,
        {
            x.push(0);
            f.push(FRegister::write_f64_bits(0));
            i += 1;
        }
        let mut hot_cache: Vec<Option<(u32, exec::Block<'arena>)>> = Vec::new();
        let mut j: usize = 0;
        while j < HOT_SIZE
            invariant
                j <= HOT_SIZE,
                hot_cache@.len() == j,
            decreases HOT_SIZE - j,
        {
            hot_cache.push(None);
            j += 1;
        }
        let mut this = Interpreter {
            arena,
            pc: u32::MAX,
            x,
            f,
            memory: Memory::new(),
            hot_cache,
            block_cache: fnv::FnvHashMap::default(),
            block_scratch: Vec::new(),
        };
        // initialize the stack pointer
        this.write_x(Register::sp(), 0xfffffff0);
        assert(this.x@ =~= initial_x());
        assert(this.f@ =~= Seq::new(32, |i: int| (FRegister { bits: 0 })));
        this
    }

    /// The program counter.
    pub fn pc(&self) -> (r: Option<u32>)
        ensures
            r == Some(self.state().pc),
    {
        Some(self.pc)
    }

    /// The value of register `x`.
    pub fn read_x(&self, x: Register) -> (r: u32)
        requires
            self.wf(),
        ensures
            r == self.state().x[x@ as int],
    {
        self.x[x.index()]
    }

    /// Sets register `x` to `v`; writes to x0 are dropped.
    pub fn write_x(&mut self, x: Register, v: u32)
        requires
            old(self).wf(),
        ensures
            final(self).wf(),
            final(self).state() == (MachineState {
                x: if x@ == 0 {
                    old(self).state().x
                } else {
                    old(self).state().x.update(x@ as int, v)
                },
                ..old(self).state()
            }),
    {
        let i = x.index();
        if i != 0 {
            self.x.set(i, v);
        }
    }

    /// Sets register `x`, which must not be x0, to `v`.
    pub fn write_x_unchecked(&mut self, x: Register, v: u32)
        requires
            old(self).wf(),
            x@ != 0,
        ensures
            final(self).wf(),
            final(self).state() == (MachineState {
                x: old(self).state().x.update(x@ as int, v),
                ..old(self).state()
            }),
    {
        self.x.set(x.index(), v);
    }

    /// The floating-point register `f`.
    pub fn read_f(&self, f: Register) -> (r: FRegister)
        requires
            self.wf(),
        ensures
            r == self.state().f[f@ as int],
    {
        self.f[f.index()]
    }

    /// Sets floating-point register `f` to `v`.
    pub fn write_f(&mut self, f: Register, v: FRegister)
        requires
            old(self).wf(),
        ensures
            final(self).wf(),
            final(self).state() == (MachineState {
                f: old(self).state().f.update(f@ as int, v),
                ..old(self).state()
            }),
    {
        self.f.set(f.index(), v);
    }

    pub fn load_u8(&self, addr: u32) -> (r: Result<u8, MemoryError>)
        requires
            self.wf(),
        ensures
            r == (if self.state().mem.dom().contains(addr) {
                Ok(self.state().mem[addr])
            } else {
                Err(MemoryError::OutOfBoundsLoad(addr))
            }),
    {
        self.memory.load_u8(addr)
    }

    pub fn load_i8(&self, addr: u32) -> (r: Result<i8, MemoryError>)
        requires
            self.wf(),
        ensures
            r == (if self.state().mem.dom().contains(addr) {
                Ok(self.state().mem[addr] as i8)
            } else {
                Err(MemoryError::OutOfBoundsLoad(addr))
            }),
    {
        self.memory.load_i8(addr)
    }

    pub fn load_u16(&self, addr: u32) -> (r: Result<u16, MemoryError>)
        requires
            self.wf(),
        ensures
            r == (match load_bytes(self.state().mem, addr, 2) {
                Ok(bs) => Ok(u16_from_le(bs)),
                Err(e) => Err(e),
            }),
    {
        self.memory.load_u16(addr)
    }

    pub fn load_i16(&self, addr: u32) -> (r: Result<i16, MemoryError>)
        requires
            self.wf(),
        ensures
            r == (match load_bytes(self.state().mem, addr, 2) {
                Ok(bs) => Ok(u16_from_le(bs) as i16),
                Err(e) => Err(e),
            }),
    {
        self.memory.load_i16(addr)
    }

    pub fn load_u32(&self, addr: u32) -> (r: Result<u32, MemoryError>)
        requires
            self.wf(),
        ensures
            r == (match load_bytes(self.state().mem, addr, 4) {
                Ok(bs) => Ok(u32_from_le(bs)),
                Err(e) => Err(e),
            }),
    {
        self.memory.load_u32(addr)
    }

    /// The bits of the double at `addr`.
    pub fn load_u64(&self, addr: u32) -> (r: Result<u64, MemoryError>)
        requires
            self.wf(),
        ensures
            r == (match load_bytes(self.state().mem, addr, 8) {
                Ok(bs) => Ok(u64_from_le(bs)),
                Err(e) => Err(e),
            }),
    {
        self.memory.load_u64(addr)
    }

    pub fn store_u8(&mut self, addr: u32, value: u8) -> (r: Result<(), MemoryError>)
        requires
            old(self).wf(),
        ensures
            final(self).wf(),
            r == (if old(self).state().mem.dom().contains(addr) {
                Ok(())
            } else {
                Err(MemoryError::OutOfBoundsStore(addr))
            }),
            final(self).state() == (MachineState {
                mem: if old(self).state().mem.dom().contains(addr) {
                    old(self).state().mem.insert(addr, value)
                } else {
                    old(self).state().mem
                },
                ..old(self).state()
            }),
    {
        self.memory.store_u8(addr, value)
    }

    pub fn store_u16(&mut self, addr: u32, value: u16) -> (r: Result<(), MemoryError>)
        requires
            old(self).wf(),
        ensures
            final(self).wf(),
            r == store_bytes_result(old(self).state().mem, addr, le_bytes_u16(value)),
            final(self).state() == (MachineState {
                mem: store_bytes_state(old(self).state().mem, addr, le_bytes_u16(value)),
                ..old(self).state()
            }),
    {
        self.memory.store_u16(addr, value)
    }

    pub fn store_u32(&mut self, addr: u32, value: u32) -> (r: Result<(), MemoryError>)
        requires
            old(self).wf(),
        ensures
            final(self).wf(),
            r == store_bytes_result(old(self).state().mem, addr, le_bytes_u32(value)),
            final(self).state() == (MachineState {
                mem: store_bytes_state(old(self).state().mem, addr, le_bytes_u32(value)),
                ..old(self).state()
            }),
    {
        self.memory.store_u32(addr, value)
    }

    /// The bytes of the NUL-terminated string at `addr`, without the NUL
    /// (addresses wrap around the address space).
    pub fn load_c_bytes(&self, addr: u32) -> (r: Result<Vec<u8>, ExecError>)
        requires
            self.wf(),
        ensures
            match scan_c_string(self.state().mem, addr, 0) {
                Ok(n) => r matches Ok(v) && v@ == bytes_at(self.state().mem, addr, n),
                Err(e) => r == Err::<Vec<u8>, ExecError>(e),
            },
    {
        let ghost m = self.state().mem;
        let mut bytes: Vec<u8> = Vec::new();
        let mut i: u64 = 0;
        while i < 0x1_0000_0000
            invariant
                self.wf(),
                m == self.state().mem,
                i <= 0x1_0000_0000,
                bytes@ == bytes_at(m, addr, i as nat),
                scan_c_string(m, addr, 0) == scan_c_string(m, addr, i as nat),
            decreases 0x1_0000_0000 - i,
        {
            let a = addr.wrapping_add(i as u32);
            assert(a == byte_addr(addr, i as int)) by {
                assert((i as u32) == i);
            }
            let c = match self.load_u8(a) {
                Ok(c) => c,
                Err(e) => {
                    return Err(ExecError::Memory(e));
                },
            };
            if c == 0 {
                return Ok(bytes);
            }
            bytes.push(c);
            assert(bytes@ =~= bytes_at(m, addr, (i + 1) as nat));
            i += 1;
        }
        Err(ExecError::StringTooLong)
    }

    /// Reads the NUL-terminated UTF-8 string at `addr` (addresses wrap
    /// around the address space).
    pub fn load_string(&self, addr: u32) -> (r: Result<String, ExecError>)
        requires
            self.wf(),
        ensures
            match c_string(self.state().mem, addr) {
                Ok(cs) => r matches Ok(s) && s@ == cs,
                Err(e) => r == Err::<String, ExecError>(e),
            },
    {
        let bytes = self.load_c_bytes(addr)?;
        match string_from_utf8(bytes) {
            Some(s) => Ok(s),
            None => Err(ExecError::InvalidUtf8),
        }
    }

    /// Writes the bytes of `value` from `addr` on, stopping at the first
    /// unmapped address (addresses wrap around the address space).
    pub fn store_slice(&mut self, addr: u32, value: &[u8]) -> (r: Result<(), MemoryError>)
        requires
            old(self).wf(),
            value@.len() < 0x1_0000_0000,
        ensures
            final(self).wf(),
            r == store_bytes_result(old(self).state().mem, addr, value@),
            final(self).state() == (MachineState {
                mem: store_bytes_state(old(self).state().mem, addr, value@),
                ..old(self).state()
            }),
    {
        self.memory.store_slice(addr, value)
    }

    /// Stores the bits of a double at `addr`.
    pub fn store_u64(&mut self, addr: u32, value: u64) -> (r: Result<(), MemoryError>)
        requires
            old(self).wf(),
        ensures
            final(self).wf(),
            r == store_bytes_result(old(self).state().mem, addr, le_bytes_u64(value)),
            final(self).state() == (MachineState {
                mem: store_bytes_state(old(self).state().mem, addr, le_bytes_u64(value)),
                ..old(self).state()
            }),
    {
        self.memory.store_u64(addr, value)
    }
}

} // verus!
