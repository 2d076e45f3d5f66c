use bumpalo::Bump;
use rv::cpu::FRegister;
use rv::instr::{FloatFunct, Fp, IntegerFunct, Register, RoundingMode};
use rv::interpreter::exec::{integer_op, nte};
use rv::interpreter::float::{fp_step, is_nan_f32_bits, is_nan_f64_bits, FloatWork};
use rv::interpreter::{ExecError, Interpreter};

#[test]
fn division_by_zero_and_overflow() {
    assert_eq!(integer_op(IntegerFunct::Divide, 7, 0), Ok(u32::MAX));
    assert_eq!(integer_op(IntegerFunct::DivideUnsigned, 7, 0), Ok(u32::MAX));
    assert_eq!(integer_op(IntegerFunct::Remainder, 7, 0), Ok(7));
    assert_eq!(integer_op(IntegerFunct::RemainderUnsigned, 7, 0), Ok(7));
    assert_eq!(integer_op(IntegerFunct::Divide, 0x8000_0000, u32::MAX), Ok(0x8000_0000));
    assert_eq!(integer_op(IntegerFunct::Remainder, 0x8000_0000, u32::MAX), Err(ExecError::RemainderOverflow));
}

#[test]
fn signed_division_rounds_toward_zero() {
    let m7 = (-7i32) as u32;
    assert_eq!(integer_op(IntegerFunct::Divide, m7, 2), Ok((-3i32) as u32));
    assert_eq!(integer_op(IntegerFunct::Remainder, m7, 2), Ok((-1i32) as u32));
    assert_eq!(integer_op(IntegerFunct::Divide, 7, (-2i32) as u32), Ok((-3i32) as u32));
    assert_eq!(integer_op(IntegerFunct::Remainder, 7, (-2i32) as u32), Ok(1));
    assert_eq!(integer_op(IntegerFunct::DivideUnsigned, 17, 5), Ok(3));
    assert_eq!(integer_op(IntegerFunct::RemainderUnsigned, 17, 5), Ok(2));
}

#[test]
fn shifts_and_comparisons() {
    assert_eq!(integer_op(IntegerFunct::ShiftLeft, 1, 31), Ok(0x8000_0000));
    assert_eq!(integer_op(IntegerFunct::ShiftLeft, 1, 32), Ok(0));
    assert_eq!(integer_op(IntegerFunct::ShiftRight, 0x8000_0000, 40), Ok(0));
    assert_eq!(integer_op(IntegerFunct::ShiftRightArithmetic, 0x8000_0000, 4), Ok(0xf800_0000));
    assert_eq!(integer_op(IntegerFunct::ShiftRightArithmetic, 0x8000_0000, 100), Ok(u32::MAX));
    assert_eq!(integer_op(IntegerFunct::SetLessThan, u32::MAX, 0), Ok(1));
    assert_eq!(integer_op(IntegerFunct::SetLessThanUnsigned, u32::MAX, 0), Ok(0));
    assert_eq!(integer_op(IntegerFunct::Subtract, 0, 1), Ok(u32::MAX));
}

#[test]
fn multiplications() {
    assert_eq!(integer_op(IntegerFunct::Multiply, 0x1_0001, 0x1_0001), Ok(0x0002_0001));
    assert_eq!(integer_op(IntegerFunct::MultiplyHalfUnsigned, u32::MAX, u32::MAX), Ok(0xffff_fffe));
    assert_eq!(integer_op(IntegerFunct::MultiplyHalf, u32::MAX, u32::MAX), Ok(0));
    assert_eq!(integer_op(IntegerFunct::MultiplyHalf, (-2i32) as u32, 3), Ok(u32::MAX));
    assert_eq!(integer_op(IntegerFunct::MultiplyHalfSignedUnsigned, u32::MAX, u32::MAX), Ok(u32::MAX));
}

#[test]
fn rounding_modes() {
    assert_eq!(nte(RoundingMode::NearestTieToEven), Ok(()));
    assert_eq!(nte(RoundingMode::Dynamic), Ok(()));
    assert_eq!(nte(RoundingMode::Up), Err(ExecError::RoundingModeNotImplemented));
}

#[test]
fn single_round_trips_through_a_register() {
    let r = FRegister::write_f32_bits(1.5f32.to_bits());
    assert_eq!(f32::from_bits(r.read_f32_bits()), 1.5);
    assert_eq!(r.read_f64_bits() >> 32, 0xffff_ffff);
    // a double read as a single is the canonical NaN
    let d = FRegister::write_f64_bits(1.5f64.to_bits());
    assert_eq!(d.read_f32_bits(), 0x7fc0_0000);
}

fn fp(rm: RoundingMode, funct: FloatFunct, src2: u32) -> Fp {
    Fp {
        rounding_mode: rm,
        funct,
        dest: Register::new(10).unwrap(),
        src1: Register::new(11).unwrap(),
        src2: Register::new(src2).unwrap(),
    }
}

#[test]
fn sign_injection_moves_only_the_sign() {
    let arena = Bump::new();
    let mut cpu = Interpreter::new(&arena);
    cpu.write_f(Register::new(11).unwrap(), FRegister::write_f32_bits(1.5f32.to_bits()));
    cpu.write_f(Register::new(12).unwrap(), FRegister::write_f32_bits((-2.0f32).to_bits()));
    let dest = Register::new(10).unwrap();
    assert_eq!(fp_step(&mut cpu, fp(RoundingMode::NearestTieToEven, FloatFunct::InjectSignSingle, 12)), Ok(FloatWork::Done));
    assert_eq!(f32::from_bits(cpu.read_f(dest).read_f32_bits()), -1.5);
    assert_eq!(fp_step(&mut cpu, fp(RoundingMode::Zero, FloatFunct::InjectSignSingle, 12)), Ok(FloatWork::Done));
    assert_eq!(f32::from_bits(cpu.read_f(dest).read_f32_bits()), 1.5);
    assert_eq!(fp_step(&mut cpu, fp(RoundingMode::Down, FloatFunct::InjectSignSingle, 12)), Ok(FloatWork::Done));
    assert_eq!(f32::from_bits(cpu.read_f(dest).read_f32_bits()), -1.5);
    assert_eq!(fp_step(&mut cpu, fp(RoundingMode::Up, FloatFunct::InjectSignSingle, 12)), Err(ExecError::InvalidFloatOp));
}

#[test]
fn moves_between_register_files() {
    let arena = Bump::new();
    let mut cpu = Interpreter::new(&arena);
    cpu.write_x(Register::new(11).unwrap(), 0x4040_0000);
    assert_eq!(fp_step(&mut cpu, fp(RoundingMode::NearestTieToEven, FloatFunct::MoveFromXSingle, 0)), Ok(FloatWork::Done));
    assert_eq!(f32::from_bits(cpu.read_f(Register::new(10).unwrap()).read_f32_bits()), 3.0);
    cpu.write_f(Register::new(11).unwrap(), FRegister::write_f32_bits(0x4080_0000));
    assert_eq!(fp_step(&mut cpu, fp(RoundingMode::NearestTieToEven, FloatFunct::MoveToXSingle, 0)), Ok(FloatWork::Done));
    assert_eq!(cpu.read_x(Register::a0()), 0x4080_0000);
    assert_eq!(fp_step(&mut cpu, fp(RoundingMode::NearestTieToEven, FloatFunct::MoveToXSingle, 1)), Err(ExecError::NonZeroOperand));
    assert_eq!(fp_step(&mut cpu, fp(RoundingMode::Zero, FloatFunct::MoveToXSingle, 0)), Err(ExecError::NotImplemented));
}

#[test]
fn arithmetic_is_left_to_the_caller_after_checks() {
    let arena = Bump::new();
    let mut cpu = Interpreter::new(&arena);
    assert_eq!(fp_step(&mut cpu, fp(RoundingMode::Dynamic, FloatFunct::AddSingle, 12)), Ok(FloatWork::Compute));
    assert_eq!(fp_step(&mut cpu, fp(RoundingMode::Up, FloatFunct::AddDouble, 12)), Err(ExecError::RoundingModeNotImplemented));
    assert_eq!(fp_step(&mut cpu, fp(RoundingMode::Dynamic, FloatFunct::SquareRootSingle, 1)), Err(ExecError::NonZeroOperand));
    assert_eq!(fp_step(&mut cpu, fp(RoundingMode::Zero, FloatFunct::ConvertToWordSingle, 2)), Err(ExecError::InvalidFloatOp));
    assert_eq!(fp_step(&mut cpu, fp(RoundingMode::Zero, FloatFunct::ConvertToWordDouble, 1)), Ok(FloatWork::Compute));
    assert_eq!(fp_step(&mut cpu, fp(RoundingMode::Dynamic, FloatFunct::ClassifyDouble, 0)), Err(ExecError::NotImplemented));
}

#[test]
fn min_max_of_nans() {
    let arena = Bump::new();
    let mut cpu = Interpreter::new(&arena);
    cpu.write_f(Register::new(11).unwrap(), FRegister::write_f32_bits(0x7fc0_0000));
    cpu.write_f(Register::new(12).unwrap(), FRegister::write_f32_bits(2.0f32.to_bits()));
    assert_eq!(fp_step(&mut cpu, fp(RoundingMode::NearestTieToEven, FloatFunct::MinMaxSingle, 12)), Ok(FloatWork::Done));
    assert_eq!(f32::from_bits(cpu.read_f(Register::new(10).unwrap()).read_f32_bits()), 2.0);
    cpu.write_f(Register::new(11).unwrap(), FRegister::write_f32_bits(1.0f32.to_bits()));
    assert_eq!(fp_step(&mut cpu, fp(RoundingMode::Zero, FloatFunct::MinMaxSingle, 12)), Ok(FloatWork::Compute));
    assert!(is_nan_f32_bits(f32::NAN.to_bits()));
    assert!(!is_nan_f32_bits(f32::INFINITY.to_bits()));
    assert!(is_nan_f64_bits(f64::NAN.to_bits()));
    assert!(!is_nan_f64_bits(1.0f64.to_bits()));
}
