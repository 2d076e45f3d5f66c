use vstd::prelude::*;

use crate::cpu::FRegister;
use crate::instr::{Instruction, Fp, Fused, FloatFunct, RoundingMode, Register};
use super::{ExecError, Interpreter, MachineState};
use super::exec::{boxed, unboxed, set_x, set_f, nte};

verus! {

/// What is left of a floating-point instruction once its operands are
/// checked and its bit-level part is done.
#[derive(Debug, Clone, Copy, PartialEq, Eq, Structural)]
pub enum FloatWork {
    /// The instruction is complete.
    Done,
    /// The instruction's operands are valid and its floating-point
    /// arithmetic remains to be done.
    Compute,
}

/// Whether the float routines implement rounding mode `rm`.
pub open spec fn nte_ok(rm: RoundingMode) -> bool {
    rm is NearestTieToEven || rm is Dynamic
}

/// Whether the single with bits `b` is a NaN.
pub open spec fn f32_is_nan(b: u32) -> bool {
    b & 0x7f80_0000 == 0x7f80_0000 && b & 0x007f_ffff != 0
}

/// Whether the double with bits `b` is a NaN.
pub open spec fn f64_is_nan(b: u64) -> bool {
    b & 0x7ff0_0000_0000_0000 == 0x7ff0_0000_0000_0000 && b & 0x000f_ffff_ffff_ffff != 0
}

/// Whether the sign bit of the single with bits `b` is set.
pub open spec fn sign32(b: u32) -> bool {
    b & 0x8000_0000 != 0
}

/// Whether the sign bit of the double with bits `b` is set.
pub open spec fn sign64(b: u64) -> bool {
    b & 0x8000_0000_0000_0000 != 0
}

/// The single with bits `b`, its sign bit set to `neg`.
pub open spec fn with_sign32(b: u32, neg: bool) -> u32 {
    if neg {
        b | 0x8000_0000
    } else {
        b & 0x7fff_ffff
    }
}

/// The double with bits `b`, its sign bit set to `neg`.
pub open spec fn with_sign64(b: u64, neg: bool) -> u64 {
    if neg {
        b | 0x8000_0000_0000_0000
    } else {
        b & 0x7fff_ffff_ffff_ffff
    }
}

/// The sign that sign injection gives, from the signs of the operands, by
/// the rounding-mode field (`fsgnj`, `fsgnjn`, `fsgnjx`); none for the
/// field's other values.
pub open spec fn injected_sign(rm: RoundingMode, s1: bool, s2: bool) -> Option<bool> {
    match rm {
        RoundingMode::NearestTieToEven => Some(s2),
        RoundingMode::Zero => Some(!s2),
        RoundingMode::Down => Some(s1 != s2),
        _ => None,
    }
}

/// A register check: `r` is x0.
pub open spec fn is_x0(r: Register) -> bool {
    r@ == 0
}

/// A register check: `r` is x0 or x1 (the signed and unsigned variants of
/// a conversion).
pub open spec fn is_x0_or_x1(r: Register) -> bool {
    r@ == 0 || r@ == 1
}

/// The checks and bit-level work of an `Fp` instruction in state `s` (the
/// pc already past it).
pub open spec fn spec_fp(s: MachineState, i: Fp) -> (MachineState, Result<FloatWork, ExecError>) {
    let v1 = s.f[i.src1@ as int];
    let v2 = s.f[i.src2@ as int];
    let compute: (MachineState, Result<FloatWork, ExecError>) = (s, Ok(FloatWork::Compute));
    let rounding: (MachineState, Result<FloatWork, ExecError>) = (s, Err(ExecError::RoundingModeNotImplemented));
    let invalid: (MachineState, Result<FloatWork, ExecError>) = (s, Err(ExecError::InvalidFloatOp));
    let nonzero: (MachineState, Result<FloatWork, ExecError>) = (s, Err(ExecError::NonZeroOperand));
    match i.funct {
        FloatFunct::AddSingle | FloatFunct::SubtractSingle | FloatFunct::MultiplySingle
        | FloatFunct::DivideSingle | FloatFunct::AddDouble | FloatFunct::SubtractDouble
        | FloatFunct::MultiplyDouble | FloatFunct::DivideDouble => if nte_ok(i.rounding_mode) {
            compute
        } else {
            rounding
        },
        FloatFunct::SquareRootSingle | FloatFunct::SquareRootDouble => if !nte_ok(
            i.rounding_mode,
        ) {
            rounding
        } else if !is_x0(i.src2) {
            nonzero
        } else {
            compute
        },
        FloatFunct::InjectSignSingle => {
            let (u1, u2) = (unboxed(v1), unboxed(v2));
            match injected_sign(i.rounding_mode, sign32(u1), sign32(u2)) {
                Some(neg) => (set_f(s, i.dest, boxed(with_sign32(u1, neg))), Ok(FloatWork::Done)),
                None => invalid,
            }
        },
        FloatFunct::InjectSignDouble => match injected_sign(
            i.rounding_mode,
            sign64(v1.bits),
            sign64(v2.bits),
        ) {
            Some(neg) => (
                set_f(s, i.dest, FRegister { bits: with_sign64(v1.bits, neg) }),
                Ok(FloatWork::Done),
            ),
            None => invalid,
        },
        FloatFunct::MinMaxSingle => {
            let (u1, u2) = (unboxed(v1), unboxed(v2));
            if !(i.rounding_mode is NearestTieToEven || i.rounding_mode is Zero) {
                invalid
            } else if !f32_is_nan(u1) && !f32_is_nan(u2) {
                compute
            } else if f32_is_nan(u1) {
                (set_f(s, i.dest, boxed(u2)), Ok(FloatWork::Done))
            } else {
                (set_f(s, i.dest, boxed(u1)), Ok(FloatWork::Done))
            }
        },
        FloatFunct::MinMaxDouble => if !(i.rounding_mode is NearestTieToEven
            || i.rounding_mode is Zero) {
            invalid
        } else if !f64_is_nan(v1.bits) && !f64_is_nan(v2.bits) {
            compute
        } else if f64_is_nan(v1.bits) {
            (set_f(s, i.dest, v2), Ok(FloatWork::Done))
        } else {
            (set_f(s, i.dest, v1), Ok(FloatWork::Done))
        },
        FloatFunct::ConvertToWordSingle | FloatFunct::ConvertToWordDouble
        | FloatFunct::ConvertFromWordSingle | FloatFunct::ConvertFromWordDouble => if is_x0_or_x1(
            i.src2,
        ) {
            compute
        } else {
            invalid
        },
        FloatFunct::MoveToXSingle => if !is_x0(i.src2) {
            nonzero
        } else {
            match i.rounding_mode {
                RoundingMode::NearestTieToEven => (
                    set_x(s, i.dest, unboxed(v1)),
                    Ok(FloatWork::Done),
                ),
                RoundingMode::Zero => (s, Err(ExecError::NotImplemented)),
                _ => invalid,
            }
        },
        FloatFunct::CompareSingle | FloatFunct::CompareDouble => if i.rounding_mode is NearestTieToEven
            || i.rounding_mode is Zero || i.rounding_mode is Down {
            compute
        } else {
            invalid
        },
        FloatFunct::MoveFromXSingle => if !is_x0(i.src2) {
            nonzero
        } else {
            (set_f(s, i.dest, boxed(s.x[i.src1@ as int])), Ok(FloatWork::Done))
        },
        FloatFunct::ConvertDoubleToSingle => if i.src2@ != 1 {
            invalid
        } else if !nte_ok(i.rounding_mode) {
            rounding
        } else {
            compute
        },
        FloatFunct::ConvertSingleToDouble => if !is_x0(i.src2) {
            nonzero
        } else {
            compute
        },
        FloatFunct::ClassifyDouble => (s, Err(ExecError::NotImplemented)),
    }
}

/// The checks of a fused multiply-add: only the rounding mode.
pub open spec fn spec_fused(i: Fused) -> Result<FloatWork, ExecError> {
    if nte_ok(i.rounding_mode) {
        Ok(FloatWork::Compute)
    } else {
        Err(ExecError::RoundingModeNotImplemented)
    }
}

/// Whether the single with bits `b` is a NaN.
pub fn is_nan_f32_bits(b: u32) -> (r: bool)
    ensures
        r == f32_is_nan(b),
{
    b & 0x7f80_0000 == 0x7f80_0000 && b & 0x007f_ffff != 0
}

/// Whether the double with bits `b` is a NaN.
pub fn is_nan_f64_bits(b: u64) -> (r: bool)
    ensures
        r == f64_is_nan(b),
{
    b & 0x7ff0_0000_0000_0000 == 0x7ff0_0000_0000_0000 && b & 0x000f_ffff_ffff_ffff != 0
}

/// The sign of sign injection (see `injected_sign`).
fn inject_sign(rm: RoundingMode, s1: bool, s2: bool) -> (r: Option<bool>)
    ensures
        r == injected_sign(rm, s1, s2),
{
    match rm {
        RoundingMode::NearestTieToEven => Some(s2),
        RoundingMode::Zero => Some(!s2),
        RoundingMode::Down => Some(s1 != s2),
        _ => None,
    }
}

/// Checks the operands of the `Fp` instruction `i`, whose pc `cpu` has
/// already moved past, and does the work of those of its operations that
/// only move bits (sign injection, moves between register files, and the
/// minimum and maximum of NaN operands).
pub fn fp_step(cpu: &mut Interpreter, i: Fp) -> (r: Result<FloatWork, ExecError>)
    requires
        old(cpu).wf(),
    ensures
        final(cpu).wf(),
        (final(cpu).state(), r) == spec_fp(old(cpu).state(), i),
{
    let v1 = cpu.read_f(i.src1);
    let v2 = cpu.read_f(i.src2);
    let rm = i.rounding_mode;
    match i.funct {
        FloatFunct::AddSingle | FloatFunct::SubtractSingle | FloatFunct::MultiplySingle
        | FloatFunct::DivideSingle | FloatFunct::AddDouble | FloatFunct::SubtractDouble
        | FloatFunct::MultiplyDouble | FloatFunct::DivideDouble => {
            nte(rm)?;
            Ok(FloatWork::Compute)
        },
        FloatFunct::SquareRootSingle | FloatFunct::SquareRootDouble => {
            nte(rm)?;
            if i.src2.index() != 0 {
                return Err(ExecError::NonZeroOperand);
            }
            Ok(FloatWork::Compute)
        },
        FloatFunct::InjectSignSingle => {
            let u1 = v1.read_f32_bits();
            let u2 = v2.read_f32_bits();
            match inject_sign(rm, u1 & 0x8000_0000 != 0, u2 & 0x8000_0000 != 0) {
                Some(neg) => {
                    let b = if neg {
                        u1 | 0x8000_0000
                    } else {
                        u1 & 0x7fff_ffff
                    };
                    cpu.write_f(i.dest, FRegister::write_f32_bits(b));
                    Ok(FloatWork::Done)
                },
                None => Err(ExecError::InvalidFloatOp),
            }
        },
        FloatFunct::InjectSignDouble => {
            let b1 = v1.read_f64_bits();
            let b2 = v2.read_f64_bits();
            match inject_sign(
                rm,
                b1 & 0x8000_0000_0000_0000 != 0,
                b2 & 0x8000_0000_0000_0000 != 0,
            ) {
                Some(neg) => {
                    let b = if neg {
                        b1 | 0x8000_0000_0000_0000
                    } else {
                        b1 & 0x7fff_ffff_ffff_ffff
                    };
                    cpu.write_f(i.dest, FRegister::write_f64_bits(b));
                    Ok(FloatWork::Done)
                },
                None => Err(ExecError::InvalidFloatOp),
            }
        },
        FloatFunct::MinMaxSingle => {
            if !(matches!(rm, RoundingMode::NearestTieToEven) || matches!(rm, RoundingMode::Zero)) {
                return Err(ExecError::InvalidFloatOp);
            }
            let u1 = v1.read_f32_bits();
            let u2 = v2.read_f32_bits();
            let n1 = is_nan_f32_bits(u1);
            let n2 = is_nan_f32_bits(u2);
            if !n1 && !n2 {
                Ok(FloatWork::Compute)
            } else {
                let b = if n1 {
                    u2
                } else {
                    u1
                };
                cpu.write_f(i.dest, FRegister::write_f32_bits(b));
                Ok(FloatWork::Done)
            }
        },
        FloatFunct::MinMaxDouble => {
            if !(matches!(rm, RoundingMode::NearestTieToEven) || matches!(rm, RoundingMode::Zero)) {
                return Err(ExecError::InvalidFloatOp);
            }
            let n1 = is_nan_f64_bits(v1.read_f64_bits());
            let n2 = is_nan_f64_bits(v2.read_f64_bits());
            if !n1 && !n2 {
                Ok(FloatWork::Compute)
            } else {
                let v = if n1 {
                    v2
                } else {
                    v1
                };
                cpu.write_f(i.dest, v);
                Ok(FloatWork::Done)
            }
        },
        FloatFunct::ConvertToWordSingle | FloatFunct::ConvertToWordDouble
        | FloatFunct::ConvertFromWordSingle | FloatFunct::ConvertFromWordDouble => {
            if i.src2.index() <= 1 {
                Ok(FloatWork::Compute)
            } else {
                Err(ExecError::InvalidFloatOp)
            }
        },
        FloatFunct::MoveToXSingle => {
            if i.src2.index() != 0 {
                return Err(ExecError::NonZeroOperand);
            }
            match rm {
                RoundingMode::NearestTieToEven => {
                    cpu.write_x(i.dest, v1.read_f32_bits());
                    Ok(FloatWork::Done)
                },
                RoundingMode::Zero => Err(ExecError::NotImplemented),
                _ => Err(ExecError::InvalidFloatOp),
            }
        },
        FloatFunct::CompareSingle | FloatFunct::CompareDouble => {
            match rm {
                RoundingMode::NearestTieToEven | RoundingMode::Zero | RoundingMode::Down => Ok(
                    FloatWork::Compute,
                ),
                _ => Err(ExecError::InvalidFloatOp),
            }
        },
        FloatFunct::MoveFromXSingle => {
            if i.src2.index() != 0 {
                return Err(ExecError::NonZeroOperand);
            }
            let x = cpu.read_x(i.src1);
            cpu.write_f(i.dest, FRegister::write_f32_bits(x));
            Ok(FloatWork::Done)
        },
        FloatFunct::ConvertDoubleToSingle => {
            if i.src2.index() != 1 {
                return Err(ExecError::InvalidFloatOp);
            }
            nte(rm)?;
            Ok(FloatWork::Compute)
        },
        FloatFunct::ConvertSingleToDouble => {
            if i.src2.index() != 0 {
                return Err(ExecError::NonZeroOperand);
            }
            Ok(FloatWork::Compute)
        },
        FloatFunct::ClassifyDouble => Err(ExecError::NotImplemented),
    }
}

/// Checks the rounding mode of the fused multiply-add `i`.
pub fn fused_step(i: Fused) -> (r: Result<FloatWork, ExecError>)
    ensures
        r == spec_fused(i),
{
    nte(i.rounding_mode)?;
    Ok(FloatWork::Compute)
}

proof fn lemma_sign_masks(b1: u64, b2: u64, c1: u32, c2: u32)
    by (bit_vector)
    ensures
        with_sign64(b1, sign64(b2)) == (b1 & 0x7fff_ffff_ffff_ffff) | (b2 & 0x8000_0000_0000_0000),
        with_sign64(b1, !sign64(b2)) == (b1 & 0x7fff_ffff_ffff_ffff) | (!b2 & 0x8000_0000_0000_0000),
        with_sign64(b1, sign64(b1) != sign64(b2)) == b1 ^ (b2 & 0x8000_0000_0000_0000),
        with_sign32(c1, sign32(c2)) == (c1 & 0x7fff_ffff) | (c2 & 0x8000_0000),
        with_sign32(c1, !sign32(c2)) == (c1 & 0x7fff_ffff) | (!c2 & 0x8000_0000),
        with_sign32(c1, sign32(c1) != sign32(c2)) == c1 ^ (c2 & 0x8000_0000),
{
}

/// Sign injection on doubles (`fsgnj.d`, `fsgnjn.d`, `fsgnjx.d` by the
/// rounding field 0, 1, 2) keeps all bits of the first operand but the
/// sign, and takes the sign from the second operand: its sign bit, its
/// negated sign bit, or the exclusive or of both operands' sign bits.
/// Other fields are refused.
pub proof fn law_inject_sign_double(s: MachineState, i: Fp)
    requires
        i.funct == FloatFunct::InjectSignDouble,
    ensures
        ({
            let b1 = s.f[i.src1@ as int].bits;
            let b2 = s.f[i.src2@ as int].bits;
            let done = |bits: u64| (set_f(s, i.dest, FRegister { bits }), Ok::<FloatWork, ExecError>(FloatWork::Done));
            &&& i.rounding_mode is NearestTieToEven ==> spec_fp(s, i) == done(
                (b1 & 0x7fff_ffff_ffff_ffff) | (b2 & 0x8000_0000_0000_0000),
            )
            &&& i.rounding_mode is Zero ==> spec_fp(s, i) == done(
                (b1 & 0x7fff_ffff_ffff_ffff) | (!b2 & 0x8000_0000_0000_0000),
            )
            &&& i.rounding_mode is Down ==> spec_fp(s, i) == done(b1 ^ (b2 & 0x8000_0000_0000_0000))
            &&& !(i.rounding_mode is NearestTieToEven || i.rounding_mode is Zero || i.rounding_mode is Down)
                ==> spec_fp(s, i).1 == Err::<FloatWork, ExecError>(ExecError::InvalidFloatOp)
        }),
{
    let b1 = s.f[i.src1@ as int].bits;
    let b2 = s.f[i.src2@ as int].bits;
    lemma_sign_masks(b1, b2, 0, 0);
}

/// Sign injection on singles works the same on the single that each
/// operand register holds (its NaN-boxed value), and the result is boxed.
pub proof fn law_inject_sign_single(s: MachineState, i: Fp)
    requires
        i.funct == FloatFunct::InjectSignSingle,
    ensures
        ({
            let c1 = unboxed(s.f[i.src1@ as int]);
            let c2 = unboxed(s.f[i.src2@ as int]);
            let done = |bits: u32| (set_f(s, i.dest, boxed(bits)), Ok::<FloatWork, ExecError>(FloatWork::Done));
            &&& i.rounding_mode is NearestTieToEven ==> spec_fp(s, i) == done((c1 & 0x7fff_ffff) | (c2 & 0x8000_0000))
            &&& i.rounding_mode is Zero ==> spec_fp(s, i) == done((c1 & 0x7fff_ffff) | (!c2 & 0x8000_0000))
            &&& i.rounding_mode is Down ==> spec_fp(s, i) == done(c1 ^ (c2 & 0x8000_0000))
            &&& !(i.rounding_mode is NearestTieToEven || i.rounding_mode is Zero || i.rounding_mode is Down)
                ==> spec_fp(s, i).1 == Err::<FloatWork, ExecError>(ExecError::InvalidFloatOp)
        }),
{
    let c1 = unboxed(s.f[i.src1@ as int]);
    let c2 = unboxed(s.f[i.src2@ as int]);
    lemma_sign_masks(0, 0, c1, c2);
}

/// Moves between the register files copy bits: `fmv.x.w` puts the single
/// that the source register holds into the integer destination, `fmv.w.x`
/// puts the integer source, NaN-boxed, into the float destination.  When
/// exactly one operand of `fmin`/`fmax` is a NaN, the result is the other
/// operand.
pub proof fn law_float_moves_and_nans(s: MachineState, i: Fp)
    requires
        i.src2@ == 0,
    ensures
        ({
            let v1 = s.f[i.src1@ as int];
            let v2 = s.f[i.src2@ as int];
            let done = Ok::<FloatWork, ExecError>(FloatWork::Done);
            &&& i.funct == FloatFunct::MoveToXSingle && i.rounding_mode is NearestTieToEven
                ==> spec_fp(s, i) == (set_x(s, i.dest, unboxed(v1)), done)
            &&& i.funct == FloatFunct::MoveFromXSingle ==> spec_fp(s, i) == (set_f(s, i.dest, boxed(s.x[i.src1@ as int])), done)
        }),
{
}

/// `fmin`/`fmax` with exactly one NaN operand give the other operand, for
/// doubles and (on the singles the registers hold) singles.
pub proof fn law_min_max_nan(s: MachineState, i: Fp)
    requires
        i.rounding_mode is NearestTieToEven || i.rounding_mode is Zero,
    ensures
        ({
            let v1 = s.f[i.src1@ as int];
            let v2 = s.f[i.src2@ as int];
            let (u1, u2) = (unboxed(v1), unboxed(v2));
            let done = Ok::<FloatWork, ExecError>(FloatWork::Done);
            &&& i.funct == FloatFunct::MinMaxDouble && f64_is_nan(v1.bits) && !f64_is_nan(v2.bits)
                ==> spec_fp(s, i) == (set_f(s, i.dest, v2), done)
            &&& i.funct == FloatFunct::MinMaxDouble && !f64_is_nan(v1.bits) && f64_is_nan(v2.bits)
                ==> spec_fp(s, i) == (set_f(s, i.dest, v1), done)
            &&& i.funct == FloatFunct::MinMaxSingle && f32_is_nan(u1) && !f32_is_nan(u2)
                ==> spec_fp(s, i) == (set_f(s, i.dest, boxed(u2)), done)
            &&& i.funct == FloatFunct::MinMaxSingle && !f32_is_nan(u1) && f32_is_nan(u2)
                ==> spec_fp(s, i) == (set_f(s, i.dest, boxed(u1)), done)
            &&& (i.funct == FloatFunct::MinMaxDouble && !f64_is_nan(v1.bits) && !f64_is_nan(v2.bits)
                || i.funct == FloatFunct::MinMaxSingle && !f32_is_nan(u1) && !f32_is_nan(u2))
                ==> spec_fp(s, i) == (s, Ok::<FloatWork, ExecError>(FloatWork::Compute))
        }),
{
}

} // verus!
