use bumpalo::Bump;
use rv::interpreter::video::rgba_of;
use rv::cpu::memory::MemoryError;
use rv::cpu::FRegister;
use rv::instr::{Instruction, Register};
use rv::interpreter::exec::{BlockExit, Flow};
use rv::interpreter::{ExecError, Interpreter};

fn store_program(cpu: &mut Interpreter<'_>, addr: u32, words: &[u32]) {
    for (i, w) in words.iter().enumerate() {
        cpu.store_u32(addr + 4 * i as u32, *w).unwrap();
    }
}

#[test]
fn fresh_interpreter_state() {
    let arena = Bump::new();
    let cpu = Interpreter::new(&arena);
    assert_eq!(cpu.pc(), Some(u32::MAX));
    assert_eq!(cpu.read_x(Register::sp()), 0xffff_fff0);
    assert_eq!(cpu.read_x(Register::a0()), 0);
    assert_eq!(cpu.read_f(Register::a0()).bits, 0);
}

#[test]
fn x0_stays_zero() {
    let arena = Bump::new();
    let mut cpu = Interpreter::new(&arena);
    cpu.write_x(Register::zero(), 5);
    assert_eq!(cpu.read_x(Register::zero()), 0);
    cpu.write_x(Register::a0(), 5);
    assert_eq!(cpu.read_x(Register::a0()), 5);
    cpu.write_x_unchecked(Register::a1(), 6);
    assert_eq!(cpu.read_x(Register::a1()), 6);
    cpu.write_f(Register::a0(), FRegister::write_f64_bits(0x4000_0000_0000_0000));
    assert_eq!(cpu.read_f(Register::a0()).read_f64_bits(), 0x4000_0000_0000_0000);
}

#[test]
fn strings_and_slices() {
    let arena = Bump::new();
    let mut cpu = Interpreter::new(&arena);
    assert_eq!(cpu.store_slice(0x10000, b"hello\0world"), Ok(()));
    assert_eq!(cpu.load_string(0x10000), Ok("hello".to_string()));
    assert_eq!(cpu.load_string(0x10006), Ok("world".to_string()));
    assert_eq!(cpu.load_c_bytes(0x10001), Ok(b"ello".to_vec()));
    assert_eq!(cpu.store_slice(0x10000, &[0xff, 0xfe, 0]), Ok(()));
    assert_eq!(cpu.load_string(0x10000), Err(ExecError::InvalidUtf8));
    assert_eq!(cpu.load_string(0x0fff_fffe), Ok(String::new()));
    assert_eq!(cpu.store_slice(0x0fff_fffe, b"ab"), Ok(()));
    assert_eq!(cpu.load_string(0x0fff_fffe), Err(ExecError::Memory(MemoryError::OutOfBoundsLoad(0x1000_0000))));
    assert_eq!(cpu.store_slice(0x0fff_ffff, &[1, 2]), Err(MemoryError::OutOfBoundsStore(0x1000_0000)));
    assert_eq!(cpu.load_u8(0x0fff_ffff), Ok(1));
}

#[test]
fn runs_a_block_to_its_return() {
    let arena = Bump::new();
    let mut cpu = Interpreter::new(&arena);
    // addi a0, x0, 10; addi a0, a0, 32; slli a1, a0, 2; ret
    store_program(&mut cpu, 0x10000, &[0x00a0_0513, 0x0205_0513, 0x0025_1593, 0x0000_8067]);
    assert_eq!(cpu.begin_subroutine(0x10000), Ok(()));
    assert_eq!(cpu.pc(), Some(0x10000));
    assert_eq!(cpu.read_x(Register::ra()), u32::MAX);
    assert_eq!(cpu.begin_subroutine(0x10000), Err(ExecError::AlreadyRunning));
    let block = cpu.prepare_block().unwrap();
    assert_eq!(block.len(), 4);
    assert_eq!(block.op(0).instruction(), Instruction::decode(0x00a0_0513).unwrap());
    assert_eq!(block.op(0).len(), 4);
    assert_eq!(block.execute(&mut cpu, 0), Ok(BlockExit::Done));
    assert_eq!(cpu.read_x(Register::a0()), 42);
    assert_eq!(cpu.read_x(Register::a1()), 168);
    assert_eq!(cpu.pc(), Some(u32::MAX));
}

#[test]
fn blocks_are_cached() {
    let arena = Bump::new();
    let mut cpu = Interpreter::new(&arena);
    store_program(&mut cpu, 0x10000, &[0x00a0_0513, 0x0000_8067]);
    cpu.begin_subroutine(0x10000).unwrap();
    let first = cpu.prepare_block().unwrap();
    // change the code: the cached block is still served
    store_program(&mut cpu, 0x10000, &[0x0010_0513]);
    let second = cpu.prepare_block().unwrap();
    assert_eq!(second.len(), first.len());
    assert_eq!(second.op(0).instruction(), first.op(0).instruction());
    second.execute(&mut cpu, 0).unwrap();
    assert_eq!(cpu.read_x(Register::a0()), 10);
}

#[test]
fn compressed_code_and_host_exits() {
    let arena = Bump::new();
    let mut cpu = Interpreter::new(&arena);
    // c.li a0, 5; ecall; c.jr ra
    cpu.store_u16(0x10000, 0x4515).unwrap();
    cpu.store_u32(0x10002, 0x0000_0073).unwrap();
    cpu.store_u16(0x10006, 0x8082).unwrap();
    cpu.begin_subroutine(0x10000).unwrap();
    let block = cpu.prepare_block().unwrap();
    assert_eq!(block.len(), 3);
    assert_eq!(block.execute(&mut cpu, 0), Ok(BlockExit::Host(Flow::Ecall, 2)));
    assert_eq!(cpu.pc(), Some(0x10006));
    assert_eq!(cpu.read_x(Register::a0()), 5);
    assert_eq!(block.execute(&mut cpu, 2), Ok(BlockExit::Done));
    assert_eq!(cpu.pc(), Some(u32::MAX));
}

#[test]
fn execution_at_zero_is_refused() {
    let arena = Bump::new();
    let mut cpu = Interpreter::new(&arena);
    cpu.write_x(Register::ra(), 0x1234);
    cpu.begin_subroutine(0).unwrap();
    assert!(matches!(cpu.prepare_block(), Err(ExecError::ExecuteAtZero(u32::MAX))));
}

#[test]
fn decoding_errors_surface() {
    let arena = Bump::new();
    let mut cpu = Interpreter::new(&arena);
    store_program(&mut cpu, 0x10000, &[0x0000_007f]);
    cpu.begin_subroutine(0x10000).unwrap();
    assert!(matches!(cpu.prepare_block(), Err(ExecError::Decode(_))));
    let mut cpu2 = Interpreter::new(&arena);
    cpu2.begin_subroutine(0x100).unwrap();
    assert!(matches!(cpu2.prepare_block(), Err(ExecError::Memory(MemoryError::OutOfBoundsLoad(0x100)))));
}

#[test]
fn loads_stores_and_branches() {
    let arena = Bump::new();
    let mut cpu = Interpreter::new(&arena);
    // lui a1, 0x20; sw a0, 4(a1); lw a2, 4(a1); beq a0, a2, +8
    store_program(&mut cpu, 0x10000, &[0x0002_05b7, 0x00a5_a223, 0x0045_a603, 0x00c5_0463]);
    cpu.write_x(Register::a0(), 77);
    cpu.begin_subroutine(0x10000).unwrap();
    let block = cpu.prepare_block().unwrap();
    assert_eq!(block.len(), 4);
    assert_eq!(block.execute(&mut cpu, 0), Ok(BlockExit::Done));
    assert_eq!(cpu.read_x(Register::a1()), 0x20000);
    assert_eq!(cpu.load_u32(0x20004), Ok(77));
    assert_eq!(cpu.read_x(Register::a2()), 77);
    assert_eq!(cpu.pc(), Some(0x10014));
}

#[test]
fn failing_load_reports_the_address() {
    let arena = Bump::new();
    let mut cpu = Interpreter::new(&arena);
    // lw a0, 0(x0); ret
    store_program(&mut cpu, 0x10000, &[0x0000_2503, 0x0000_8067]);
    cpu.begin_subroutine(0x10000).unwrap();
    let block = cpu.prepare_block().unwrap();
    assert_eq!(block.execute(&mut cpu, 0), Err(ExecError::Memory(MemoryError::OutOfBoundsLoad(0))));
    assert_eq!(cpu.pc(), Some(0x10004));
}

#[test]
fn frames_read_back_as_rgba() {
    assert_eq!(rgba_of(&[0x0011_2233, 0xff44_5566]), vec![0x11, 0x22, 0x33, 0xff, 0x44, 0x55, 0x66, 0xff]);
    assert_eq!(rgba_of(&[]), Vec::<u8>::new());
    let arena = Bump::new();
    let mut cpu = Interpreter::new(&arena);
    cpu.store_u32(0x0fff_fff8, 0x00ab_cdef).unwrap();
    cpu.store_u32(0x0fff_fffc, 0x0001_0203).unwrap();
    assert_eq!(cpu.read_frame(0x0fff_fff8, 2), Ok(vec![0xab, 0xcd, 0xef, 0xff, 0x01, 0x02, 0x03, 0xff]));
    assert_eq!(cpu.read_frame(0x0fff_fff8, 3), Err(MemoryError::OutOfBoundsLoad(0x1000_0000)));
    assert_eq!(cpu.read_frame(0x0fff_fff8, 0), Ok(vec![]));
}
