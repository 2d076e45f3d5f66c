use bumpalo::Bump;
use rv::cpu::memory::MemoryError;
use rv::instr::Register;
use rv::interpreter::exec::{BlockExit, Flow};
use rv::interpreter::linux::{
    clock_gettime, parse_elf, Breakpoint, ElfImage, ElfSection, ElfSymbol, HostError, LinuxHypervisor,
    Syscall, AT_FDCWD, EBADF, EINVAL, ENOENT, ENOMEM,
};
use rv::interpreter::{ExecError, Interpreter};

fn syscall(h: &mut LinuxHypervisor, cpu: &mut Interpreter<'_>, n: u32, args: &[u32]) -> Result<Syscall, HostError> {
    cpu.write_x(Register::a7(), n);
    let regs = [Register::a0(), Register::a1(), Register::a2(), Register::a3(), Register::a4()];
    for (r, v) in regs.iter().zip(args) {
        cpu.write_x(*r, *v);
    }
    h.ecall(cpu)
}

#[test]
fn kmalloc_hands_out_word_aligned_disjoint_blocks() {
    let mut h = LinuxHypervisor::default();
    assert_eq!(h.kmalloc(8), Some(0xf000_0000));
    assert_eq!(h.kmalloc(5), Some(0xf000_0008));
    assert_eq!(h.kmalloc(0), Some(0xf000_0010));
    assert_eq!(h.kmalloc(0x0100_0000), None);
    assert_eq!(h.kmalloc(4), Some(0xf000_0010));
    assert_eq!(h.kmalloc(0x00ff_ffec), Some(0xf000_0014));
    assert_eq!(h.kmalloc(1), None);
}

#[test]
fn brk_moves_only_within_the_data_region() {
    let arena = Bump::new();
    let mut cpu = Interpreter::new(&arena);
    let mut h = LinuxHypervisor::default();
    assert_eq!(syscall(&mut h, &mut cpu, 214, &[0x5000]), Ok(Syscall::Handled));
    assert_eq!(cpu.read_x(Register::a0()), 0x5000);
    assert_eq!(syscall(&mut h, &mut cpu, 214, &[0x1000_0000]), Ok(Syscall::Handled));
    assert_eq!(cpu.read_x(Register::a0()), 0x5000);
}

#[test]
fn mmap_serves_anonymous_pages_downwards() {
    let arena = Bump::new();
    let mut cpu = Interpreter::new(&arena);
    let mut h = LinuxHypervisor::default();
    syscall(&mut h, &mut cpu, 222, &[0, 0x1800, 3, 0x22, u32::MAX]).unwrap();
    assert_eq!(cpu.read_x(Register::a0()), 0xfeff_e000);
    syscall(&mut h, &mut cpu, 222, &[0, 0x1000, 3, 0x22, u32::MAX]).unwrap();
    assert_eq!(cpu.read_x(Register::a0()), 0xfeff_d000);
    syscall(&mut h, &mut cpu, 222, &[0, 0, 3, 0x22, u32::MAX]).unwrap();
    assert_eq!(cpu.read_x(Register::a0()), EINVAL);
    syscall(&mut h, &mut cpu, 222, &[0, 0x1000, 3, 0x02, 3]).unwrap();
    assert_eq!(cpu.read_x(Register::a0()), EBADF);
    syscall(&mut h, &mut cpu, 222, &[0, 0x1000, 3, 0x32, u32::MAX]).unwrap();
    assert_eq!(cpu.read_x(Register::a0()), ENOMEM);
    syscall(&mut h, &mut cpu, 222, &[0, 0x0f00_0000, 3, 0x22, u32::MAX]).unwrap();
    assert_eq!(cpu.read_x(Register::a0()), ENOMEM);
}

#[test]
fn trivial_calls_return_zero_and_unknown_ones_minus_one() {
    let arena = Bump::new();
    let mut cpu = Interpreter::new(&arena);
    let mut h = LinuxHypervisor::default();
    for n in [135, 215, 233] {
        assert_eq!(syscall(&mut h, &mut cpu, n, &[9]), Ok(Syscall::Handled));
        assert_eq!(cpu.read_x(Register::a0()), 0);
    }
    assert_eq!(syscall(&mut h, &mut cpu, 999, &[42]), Ok(Syscall::Unknown(999, 42)));
    assert_eq!(cpu.read_x(Register::a0()), u32::MAX);
}

#[test]
fn files_open_read_and_close() {
    let arena = Bump::new();
    let mut cpu = Interpreter::new(&arena);
    let mut h = LinuxHypervisor::with_files(vec![("/a.txt".to_string(), b"hello".to_vec())]);
    cpu.store_slice(0x10000, b"/a.txt\0/b.txt\0").unwrap();
    syscall(&mut h, &mut cpu, 56, &[AT_FDCWD, 0x10000]).unwrap();
    assert_eq!(cpu.read_x(Register::a0()), 0);
    syscall(&mut h, &mut cpu, 63, &[0, 0x20000, 3]).unwrap();
    assert_eq!(cpu.read_x(Register::a0()), 3);
    assert_eq!(cpu.load_c_bytes(0x20000), Ok(b"hel".to_vec()));
    syscall(&mut h, &mut cpu, 63, &[0, 0x20003, 10]).unwrap();
    assert_eq!(cpu.read_x(Register::a0()), 2);
    assert_eq!(cpu.load_c_bytes(0x20000), Ok(b"hello".to_vec()));
    syscall(&mut h, &mut cpu, 63, &[0, 0x20005, 10]).unwrap();
    assert_eq!(cpu.read_x(Register::a0()), 0);
    syscall(&mut h, &mut cpu, 57, &[0]).unwrap();
    assert_eq!(cpu.read_x(Register::a0()), 0);
    syscall(&mut h, &mut cpu, 57, &[0]).unwrap();
    assert_eq!(cpu.read_x(Register::a0()), EBADF);
    syscall(&mut h, &mut cpu, 63, &[0, 0x20000, 1]).unwrap();
    assert_eq!(cpu.read_x(Register::a0()), EBADF);
    // descriptors are not reused
    syscall(&mut h, &mut cpu, 56, &[AT_FDCWD, 0x10000]).unwrap();
    assert_eq!(cpu.read_x(Register::a0()), 1);
    syscall(&mut h, &mut cpu, 56, &[AT_FDCWD, 0x10007]).unwrap();
    assert_eq!(cpu.read_x(Register::a0()), ENOENT);
    syscall(&mut h, &mut cpu, 56, &[3, 0x10000]).unwrap();
    assert_eq!(cpu.read_x(Register::a0()), EBADF);
    assert_eq!(
        syscall(&mut h, &mut cpu, 56, &[AT_FDCWD, 0x100]),
        Err(HostError::Exec(ExecError::Memory(MemoryError::OutOfBoundsLoad(0x100))))
    );
}

#[test]
fn read_stops_at_an_unmapped_byte() {
    let arena = Bump::new();
    let mut cpu = Interpreter::new(&arena);
    let mut h = LinuxHypervisor::with_files(vec![("/f".to_string(), b"abcdef".to_vec())]);
    cpu.store_slice(0x10000, b"/f\0").unwrap();
    syscall(&mut h, &mut cpu, 56, &[AT_FDCWD, 0x10000]).unwrap();
    assert_eq!(
        syscall(&mut h, &mut cpu, 63, &[0, 0x0fff_fffe, 6]),
        Err(HostError::Exec(ExecError::Memory(MemoryError::OutOfBoundsStore(0x1000_0000))))
    );
    assert_eq!(cpu.load_u8(0x0fff_fffe), Ok(b'a'));
    assert_eq!(cpu.load_u8(0x0fff_ffff), Ok(b'b'));
    // the descriptor moved past the two bytes written
    syscall(&mut h, &mut cpu, 63, &[0, 0x20000, 1]).unwrap();
    assert_eq!(cpu.load_u8(0x20000), Ok(b'c'));
}

#[test]
fn clock_gettime_writes_a_timespec() {
    let arena = Bump::new();
    let mut cpu = Interpreter::new(&arena);
    cpu.write_x(Register::a1(), 0x30000);
    assert_eq!(clock_gettime(&mut cpu, Some((0x1_0000_0002, 5))), Ok(Syscall::Handled));
    assert_eq!(cpu.load_u32(0x30000), Ok(2));
    assert_eq!(cpu.load_u32(0x30004), Ok(1));
    assert_eq!(cpu.load_u32(0x30008), Ok(5));
    assert_eq!(cpu.load_u32(0x3000c), Ok(0));
    assert_eq!(cpu.read_x(Register::a0()), 0);
    assert_eq!(clock_gettime(&mut cpu, None), Err(HostError::ClockBeforeEpoch));
    let mut h = LinuxHypervisor::default();
    cpu.write_x(Register::a0(), 7);
    assert_eq!(syscall(&mut h, &mut cpu, 403, &[0, 0x40000]), Ok(Syscall::Clock));
    // nothing is written until the host serves the call with its time
    assert_eq!(cpu.load_u32(0x40000), Ok(0));
    assert_eq!(cpu.read_x(Register::a0()), 0);
}

fn image() -> ElfImage {
    ElfImage {
        machine: 243,
        sections: vec![
            ElfSection { flags: 0, name: None, address: 0, size: 0, data: None },
            ElfSection {
                flags: 6,
                name: Some(".text".to_string()),
                address: 0x10000,
                size: 4,
                data: Some(vec![0x13, 0x05, 0xa0, 0x00]),
            },
            ElfSection { flags: 6, name: Some(".bss".to_string()), address: 0x20000, size: 0x100, data: None },
        ],
        symbols: vec![
            ElfSymbol { name: None, kind: 2, address: 1 },
            ElfSymbol { name: Some(b"__global_pointer$".to_vec()), kind: 2, address: 0x800 },
            ElfSymbol { name: Some(b"__libc".to_vec()), kind: 2, address: 0x30000 },
            ElfSymbol { name: Some(b"__c_dot_utf8_locale".to_vec()), kind: 2, address: 0x40000 },
            ElfSymbol { name: Some(b"__libc".to_vec()), kind: 2, address: 0x50000 },
        ],
    }
}

#[test]
fn load_places_the_image_and_sets_up_libc() {
    let arena = Bump::new();
    let mut cpu = Interpreter::new(&arena);
    let mut h = LinuxHypervisor::default();
    assert_eq!(h.symbol("__libc"), Err(HostError::NoImage));
    assert_eq!(h.load(&mut cpu, image()), Ok(()));
    assert_eq!(cpu.read_x(Register::gp()), 0x800);
    assert_eq!(cpu.load_u32(0x10000), Ok(0x00a0_0513));
    assert_eq!(h.symbol("__libc"), Ok(0x30000));
    assert_eq!(h.symbol("nothing"), Err(HostError::SymbolNotFound));
    assert_eq!(cpu.load_u32(0x30008), Ok(0xf000_0000));
    assert_eq!(cpu.load_u32(0x3001c), Ok(0x1000));
    assert_eq!(cpu.read_x(Register::tp()), 0xf000_0078);
    assert_eq!(cpu.load_u32(0xf000_0060), Ok(0x40000));
    // the program break starts at the end of .bss
    syscall(&mut h, &mut cpu, 214, &[0]).unwrap();
    assert_eq!(cpu.read_x(Register::a0()), 0x20100);
    assert_eq!(h.load(&mut cpu, image()), Err(HostError::ImageAlreadyLoaded));
}

#[test]
fn interpreter_load_goes_through_the_hypervisor() {
    let arena = Bump::new();
    let mut cpu = Interpreter::new(&arena);
    let mut h = LinuxHypervisor::default();
    assert_eq!(cpu.load(&mut h, image()), Ok(()));
    assert_eq!(cpu.load_u32(0x10000), Ok(0x00a0_0513));
    assert_eq!(h.symbol("__libc"), Ok(0x30000));
    assert_eq!(cpu.load(&mut h, image()), Err(HostError::ImageAlreadyLoaded));
}

#[test]
fn load_refusals() {
    let arena = Bump::new();
    let mut cpu = Interpreter::new(&arena);
    let mut h = LinuxHypervisor::default();
    let mut img = image();
    img.machine = 62;
    assert_eq!(h.load(&mut cpu, img), Err(HostError::NotRiscv32));
    let mut img = image();
    img.symbols.remove(1);
    assert_eq!(h.load(&mut cpu, img), Err(HostError::SymbolNotFound));
    let mut h = LinuxHypervisor::default();
    let mut img = image();
    img.sections[1].address = 0x1_0000_0000;
    assert_eq!(h.load(&mut cpu, img), Err(HostError::AddressTooLarge));
    let mut h = LinuxHypervisor::default();
    let mut img = image();
    img.sections[1].name = None;
    assert_eq!(h.load(&mut cpu, img), Err(HostError::UnreadableSection));
    let mut h = LinuxHypervisor::default();
    let mut img = image();
    img.sections[1].address = 0x100;
    assert_eq!(
        h.load(&mut cpu, img),
        Err(HostError::Exec(ExecError::Memory(MemoryError::OutOfBoundsStore(0x100))))
    );
}

#[test]
fn breakpoints_log_and_report_frame_times() {
    let arena = Bump::new();
    let mut cpu = Interpreter::new(&arena);
    let h = LinuxHypervisor::default();
    cpu.store_slice(0x10000, b"value: %s!\0").unwrap();
    cpu.store_slice(0x10100, b"42\0").unwrap();
    cpu.write_x(Register::a1(), 0x10000);
    cpu.write_x(Register::a2(), 0x10100);
    // the trap page: c.ebreak; c.ret
    cpu.begin_subroutine(0xe000_0000).unwrap();
    let block = cpu.prepare_block().unwrap();
    assert_eq!(block.execute(&mut cpu, 0), Ok(BlockExit::Host(Flow::Ebreak, 1)));
    assert_eq!(cpu.pc(), Some(0xe000_0002));
    match h.ebreak(&cpu) {
        Ok(Breakpoint::Log(msg)) => assert_eq!(msg, "value: 42!"),
        other => panic!("unexpected {other:?}"),
    }
    assert_eq!(block.execute(&mut cpu, 1), Ok(BlockExit::Done));
    assert_eq!(cpu.pc(), Some(u32::MAX));
    // a message without a placeholder is passed on as it is
    cpu.store_slice(0x10000, b"plain\0").unwrap();
    cpu.write_x(Register::a2(), 0x100);
    cpu.begin_subroutine(0xe000_0000).unwrap();
    let block = cpu.prepare_block().unwrap();
    block.execute(&mut cpu, 0).unwrap();
    match h.ebreak(&cpu) {
        Ok(Breakpoint::Log(msg)) => assert_eq!(msg, "plain"),
        other => panic!("unexpected {other:?}"),
    }
    block.execute(&mut cpu, 1).unwrap();
    // frame time callback at 0xe0000004
    cpu.write_f(Register::a0(), rv::cpu::FRegister::write_f64_bits(2.5f64.to_bits()));
    cpu.begin_subroutine(0xe000_0004).unwrap();
    let block = cpu.prepare_block().unwrap();
    block.execute(&mut cpu, 0).unwrap();
    match h.ebreak(&cpu) {
        Ok(Breakpoint::Frametime(bits)) => assert_eq!(f64::from_bits(bits), 2.5),
        other => panic!("unexpected {other:?}"),
    }
    block.execute(&mut cpu, 1).unwrap();
    // any other breakpoint is an error
    cpu.begin_subroutine(0xe000_0008).unwrap();
    let block = cpu.prepare_block().unwrap();
    block.execute(&mut cpu, 0).unwrap();
    assert!(matches!(h.ebreak(&cpu), Err(HostError::EbreakReached(0xe000_000a))));
}

/// A bare little-endian 32-bit ELF header for `machine`, with no sections.
fn elf_header(machine: u16) -> Vec<u8> {
    let mut h = vec![0x7f, b'E', b'L', b'F', 1, 1, 1, 0, 0, 0, 0, 0, 0, 0, 0, 0];
    h.extend(2u16.to_le_bytes()); // executable
    h.extend(machine.to_le_bytes());
    h.extend(1u32.to_le_bytes()); // version
    h.extend([0u8; 12]); // entry, program and section header offsets
    h.extend(0u32.to_le_bytes()); // flags
    h.extend(52u16.to_le_bytes());
    h.extend([0u8; 10]);
    h
}

#[test]
fn parse_elf_reads_the_header() {
    let img = parse_elf(&elf_header(243)).unwrap();
    assert_eq!(img.machine, 243);
    assert!(img.sections.is_empty());
    assert!(img.symbols.is_empty());
    assert!(parse_elf(b"not an elf file at all, not at all, no header here").is_none());
}

#[test]
fn load_elf_parses_then_loads() {
    let arena = Bump::new();
    let mut cpu = Interpreter::new(&arena);
    let mut h = LinuxHypervisor::default();
    assert_eq!(cpu.load_elf(&mut h, b"garbage"), Err(HostError::NotAnElf));
    assert_eq!(h.symbol("__libc"), Err(HostError::NoImage));
    let mut h = LinuxHypervisor::default();
    assert_eq!(cpu.load_elf(&mut h, &elf_header(62)), Err(HostError::NotRiscv32));
    let mut h = LinuxHypervisor::default();
    assert_eq!(cpu.load_elf(&mut h, &elf_header(243)), Err(HostError::SymbolNotFound));
}
