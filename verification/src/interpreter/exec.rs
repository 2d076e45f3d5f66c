use vstd::prelude::*;

use crate::cpu::{FRegister, BOX_MASK, is_boxed, CANONICAL_NAN_F32_BITS};
use crate::cpu::memory::{
    MemoryError, load_bytes, store_bytes_result, store_bytes_state, le_bytes_u16, le_bytes_u32,
    le_bytes_u64, u16_from_le, u32_from_le, u64_from_le,
};
use crate::instr::{
    Instruction, LoadWidth, StoreWidth, IntegerFunct, IntImmediateFunct, Imm12, ImmShift, UType,
    AmoFunct, BranchType, System, LoadInt, Int, IntImmediate, U, RoundingMode, Register, FpWidth,
    StoreInt, LoadFp, StoreFp, Amo, JumpAndLink, JumpAndLinkRegister, Branch, I12, U5,
};
use crate::cpu::memory::lemma_store_one_byte;
use crate::instr::{spec_decode, spec_decode_compressed, is_lwsp_without_dest};
use super::{ExecError, Interpreter, MachineState};

verus! {

/// Which routine runs an instruction.  Instructions that write x0 and have
/// no other effect run as `Nop`.
#[derive(Debug, Clone, Copy, PartialEq, Eq, Structural)]
pub enum Handler {
    Nop,
    LoadInt(LoadWidth),
    StoreInt(StoreWidth),
    LoadFp,
    StoreFp,
    Int(IntegerFunct),
    ShiftLeftImmediate,
    ShiftRightLogicalImmediate,
    ShiftRightArithmeticImmediate,
    AddImmediate,
    SetLessThanImmediate,
    SetLessThanUnsignedImmediate,
    XorImmediate,
    OrImmediate,
    AndImmediate,
    U(UType),
    Fp,
    Fused,
    Amo(AmoFunct),
    JumpAndLink,
    JumpAndLinkRegister,
    Branch(BranchType),
    Ebreak,
    Ecall,
}

/// The handler that runs `instr`, or none for the instructions that are not
/// implemented (CSR accesses).
pub open spec fn spec_handler(instr: Instruction) -> Option<Handler> {
    match instr {
        Instruction::LoadInt(i) => if i.dest@ == 0 {
            Some(Handler::Nop)
        } else {
            Some(Handler::LoadInt(i.width))
        },
        Instruction::Int(i) => if i.dest@ == 0 {
            Some(Handler::Nop)
        } else {
            Some(Handler::Int(i.funct))
        },
        Instruction::IntImmediate(i) => if i.dest@ == 0 {
            Some(Handler::Nop)
        } else {
            match i.funct {
                IntImmediateFunct::ImmShift(ImmShift::ShiftLeft, _) => Some(
                    Handler::ShiftLeftImmediate,
                ),
                IntImmediateFunct::ImmShift(ImmShift::ShiftRightLogical, _) => Some(
                    Handler::ShiftRightLogicalImmediate,
                ),
                IntImmediateFunct::ImmShift(ImmShift::ShiftRightArithmetic, _) => Some(
                    Handler::ShiftRightArithmeticImmediate,
                ),
                IntImmediateFunct::Imm12(Imm12::Add, _) => Some(Handler::AddImmediate),
                IntImmediateFunct::Imm12(Imm12::SetLessThan, _) => Some(
                    Handler::SetLessThanImmediate,
                ),
                IntImmediateFunct::Imm12(Imm12::SetLessThanUnsigned, _) => Some(
                    Handler::SetLessThanUnsignedImmediate,
                ),
                IntImmediateFunct::Imm12(Imm12::Xor, _) => Some(Handler::XorImmediate),
                IntImmediateFunct::Imm12(Imm12::Or, _) => Some(Handler::OrImmediate),
                IntImmediateFunct::Imm12(Imm12::And, _) => Some(Handler::AndImmediate),
            }
        },
        Instruction::U(u) => if u.dest@ == 0 {
            Some(Handler::Nop)
        } else {
            Some(Handler::U(u.type_))
        },
        Instruction::Fence => Some(Handler::Nop),
        Instruction::StoreInt(s) => Some(Handler::StoreInt(s.width)),
        Instruction::LoadFp(_) => Some(Handler::LoadFp),
        Instruction::StoreFp(_) => Some(Handler::StoreFp),
        Instruction::Fp(_) => Some(Handler::Fp),
        Instruction::Fused(_) => Some(Handler::Fused),
        Instruction::Amo(a) => Some(Handler::Amo(a.funct)),
        Instruction::JumpAndLink(_) => Some(Handler::JumpAndLink),
        Instruction::JumpAndLinkRegister(_) => Some(Handler::JumpAndLinkRegister),
        Instruction::Branch(b) => Some(Handler::Branch(b.funct)),
        Instruction::System(System::Ebreak) => Some(Handler::Ebreak),
        Instruction::System(System::Ecall) => Some(Handler::Ecall),
        Instruction::System(System::Csr(_)) => None,
    }
}

/// Handlers that exist only for 4-byte (uncompressed) instructions.
pub open spec fn only_full_size(h: Handler) -> bool {
    match h {
        Handler::Int(f) => !(f is Add || f is Xor || f is Or || f is And || f is Subtract),
        Handler::SetLessThanImmediate => true,
        Handler::SetLessThanUnsignedImmediate => true,
        Handler::XorImmediate => true,
        Handler::OrImmediate => true,
        Handler::U(t) => t is AddUpperImmediateToPc,
        Handler::Fp => true,
        Handler::Fused => true,
        Handler::Amo(_) => true,
        Handler::Branch(t) => !(t is Equal || t is NotEqual),
        Handler::Ecall => true,
        _ => false,
    }
}

/// Handlers that exist at all: of the atomic operations only swap,
/// load-reserved and store-conditional.
pub open spec fn has_routine(h: Handler) -> bool {
    match h {
        Handler::Amo(f) => f is Swap || f is LoadReserved || f is StoreConditional,
        _ => true,
    }
}

/// The instructions and sizes for which no routine exists, on which building
/// an op stops (it treats them as impossible).
pub open spec fn op_new_panics(instr: Instruction, size: u8) -> bool {
    match spec_handler(instr) {
        Some(h) => !(size == 2 || size == 4) || (size == 2 && only_full_size(h)) || !has_routine(h),
        None => false,
    }
}

/// A decoded instruction ready to run: its handler, the instruction and its
/// size in bytes.
#[derive(Debug, Clone, Copy)]
pub struct Op {
    handler: Handler,
    instr: Instruction,
    size: u8,
}

impl Op {
    #[verifier::type_invariant]
    spec fn wf(self) -> bool {
        &&& spec_handler(self.instr) == Some(self.handler)
        &&& self.size == 2 || self.size == 4
    }

    pub closed spec fn handler(self) -> Handler {
        self.handler
    }

    pub closed spec fn instr(self) -> Instruction {
        self.instr
    }

    pub closed spec fn size(self) -> u8 {
        self.size
    }

    /// The op for `instr` of `size` bytes.
    pub closed spec fn spec_new(instr: Instruction, size: u8) -> Op {
        Op { handler: spec_handler(instr)->Some_0, instr, size }
    }

    pub broadcast proof fn lemma_spec_new(instr: Instruction, size: u8)
        ensures
            (#[trigger] Op::spec_new(instr, size)).handler() == spec_handler(instr)->Some_0,
            Op::spec_new(instr, size).instr() == instr,
            Op::spec_new(instr, size).size() == size,
    {
    }

    /// The instruction the op runs.
    pub fn instruction(&self) -> (r: Instruction)
        ensures
            r == self.instr(),
    {
        self.instr
    }

    /// The size in bytes of the op's instruction.
    pub fn len(&self) -> (r: u8)
        ensures
            r == self.size(),
    {
        self.size
    }

    /// Chooses the routine for `instr` of `size` bytes; CSR instructions are
    /// not implemented.
    pub fn new(instr: Instruction, size: u8) -> (r: Result<Op, ExecError>)
        requires
            !op_new_panics(instr, size),
        ensures
            match spec_handler(instr) {
                Some(h) => r == Ok::<Op, ExecError>(Op::spec_new(instr, size)),
                None => r == Err::<Op, ExecError>(ExecError::NotImplemented),
            },
    {
        match handler_of(instr) {
            Some(handler) => Ok(Op { handler, instr, size }),
            None => Err(ExecError::NotImplemented),
        }
    }
}

/// The handler that runs `instr`.
pub fn handler_of(instr: Instruction) -> (r: Option<Handler>)
    ensures
        r == spec_handler(instr),
{
    let handler = match instr {
        Instruction::LoadInt(LoadInt { dest, width, .. }) => if dest.index() == 0 {
            Handler::Nop
        } else {
            Handler::LoadInt(width)
        },
        Instruction::Int(Int { dest, funct, .. }) => if dest.index() == 0 {
            Handler::Nop
        } else {
            Handler::Int(funct)
        },
        Instruction::IntImmediate(IntImmediate { dest, funct, .. }) => if dest.index() == 0 {
            Handler::Nop
        } else {
            match funct {
                IntImmediateFunct::ImmShift(ImmShift::ShiftLeft, _) => Handler::ShiftLeftImmediate,
                IntImmediateFunct::ImmShift(ImmShift::ShiftRightLogical, _) =>
                    Handler::ShiftRightLogicalImmediate,
                IntImmediateFunct::ImmShift(ImmShift::ShiftRightArithmetic, _) =>
                    Handler::ShiftRightArithmeticImmediate,
                IntImmediateFunct::Imm12(Imm12::Add, _) => Handler::AddImmediate,
                IntImmediateFunct::Imm12(Imm12::SetLessThan, _) => Handler::SetLessThanImmediate,
                IntImmediateFunct::Imm12(Imm12::SetLessThanUnsigned, _) =>
                    Handler::SetLessThanUnsignedImmediate,
                IntImmediateFunct::Imm12(Imm12::Xor, _) => Handler::XorImmediate,
                IntImmediateFunct::Imm12(Imm12::Or, _) => Handler::OrImmediate,
                IntImmediateFunct::Imm12(Imm12::And, _) => Handler::AndImmediate,
            }
        },
        Instruction::U(U { dest, type_, .. }) => if dest.index() == 0 {
            Handler::Nop
        } else {
            Handler::U(type_)
        },
        Instruction::Fence => Handler::Nop,
        Instruction::StoreInt(s) => Handler::StoreInt(s.width),
        Instruction::LoadFp(_) => Handler::LoadFp,
        Instruction::StoreFp(_) => Handler::StoreFp,
        Instruction::Fp(_) => Handler::Fp,
        Instruction::Fused(_) => Handler::Fused,
        Instruction::Amo(a) => Handler::Amo(a.funct),
        Instruction::JumpAndLink(_) => Handler::JumpAndLink,
        Instruction::JumpAndLinkRegister(_) => Handler::JumpAndLinkRegister,
        Instruction::Branch(b) => Handler::Branch(b.funct),
        Instruction::System(System::Ebreak) => Handler::Ebreak,
        Instruction::System(System::Ecall) => Handler::Ecall,
        Instruction::System(System::Csr(_)) => {
            return None;
        },
    };
    Some(handler)
}

/// Whether a routine exists for handler `h` at instruction size `size`.
pub fn routine_exists(h: Handler, size: u8) -> (r: bool)
    ensures
        r == ((size == 2 || size == 4) && !(size == 2 && only_full_size(h)) && has_routine(h)),
{
    let full_only = match h {
        Handler::Int(f) => !(matches!(f, IntegerFunct::Add) || matches!(f, IntegerFunct::Xor)
            || matches!(f, IntegerFunct::Or) || matches!(f, IntegerFunct::And) || matches!(
            f,
            IntegerFunct::Subtract,
        )),
        Handler::SetLessThanImmediate => true,
        Handler::SetLessThanUnsignedImmediate => true,
        Handler::XorImmediate => true,
        Handler::OrImmediate => true,
        Handler::U(t) => matches!(t, UType::AddUpperImmediateToPc),
        Handler::Fp => true,
        Handler::Fused => true,
        Handler::Amo(_) => true,
        Handler::Branch(t) => !(matches!(t, BranchType::Equal) || matches!(t, BranchType::NotEqual)),
        Handler::Ecall => true,
        _ => false,
    };
    let routine = match h {
        Handler::Amo(f) => matches!(f, AmoFunct::Swap) || matches!(f, AmoFunct::LoadReserved)
            || matches!(f, AmoFunct::StoreConditional),
        _ => true,
    };
    (size == 2 || size == 4) && !(size == 2 && full_only) && routine
}




/// `x` reduced to 32 bits (two's complement wrap-around).
pub open spec fn wrap32(x: int) -> u32 {
    (x % 0x1_0000_0000) as u32
}

/// The signed value of the 32 bits `v`.
pub open spec fn signed(v: u32) -> int {
    if v < 0x8000_0000 {
        v as int
    } else {
        v - 0x1_0000_0000
    }
}

pub open spec fn abs(a: int) -> int {
    if a < 0 {
        -a
    } else {
        a
    }
}

/// Division rounding toward zero.
pub open spec fn trunc_div(a: int, b: int) -> int {
    let q = abs(a) / abs(b);
    if (a < 0) != (b < 0) {
        -q
    } else {
        q
    }
}

/// The remainder of division rounding toward zero; it has the sign of `a`.
pub open spec fn trunc_rem(a: int, b: int) -> int {
    let r = abs(a) % abs(b);
    if a < 0 {
        -r
    } else {
        r
    }
}

/// The result of the register-register operation `funct` on `v1` and `v2`.
/// Shift amounts of 32 or more shift every bit out.
pub open spec fn spec_integer_op(funct: IntegerFunct, v1: u32, v2: u32) -> Result<u32, ExecError> {
    match funct {
        IntegerFunct::Add => Ok(wrap32(v1 + v2)),
        IntegerFunct::ShiftLeft => Ok(
            if v2 < 32 {
                v1 << v2
            } else {
                0
            },
        ),
        IntegerFunct::SetLessThan => Ok(
            if signed(v1) < signed(v2) {
                1
            } else {
                0
            },
        ),
        IntegerFunct::SetLessThanUnsigned => Ok(
            if v1 < v2 {
                1
            } else {
                0
            },
        ),
        IntegerFunct::Xor => Ok(v1 ^ v2),
        IntegerFunct::ShiftRight => Ok(
            if v2 < 32 {
                v1 >> v2
            } else {
                0
            },
        ),
        IntegerFunct::Or => Ok(v1 | v2),
        IntegerFunct::And => Ok(v1 & v2),
        IntegerFunct::Subtract => Ok(wrap32(v1 - v2)),
        IntegerFunct::ShiftRightArithmetic => Ok(
            if v2 < 32 {
                ((v1 as i32) >> v2) as u32
            } else if signed(v1) < 0 {
                0xffff_ffff
            } else {
                0
            },
        ),
        IntegerFunct::Multiply => Ok(wrap32(v1 * v2)),
        IntegerFunct::MultiplyHalf => Ok(wrap32((signed(v1) * signed(v2)) / 0x1_0000_0000)),
        IntegerFunct::MultiplyHalfSignedUnsigned => Ok(wrap32((signed(v1) * v2) / 0x1_0000_0000)),
        IntegerFunct::MultiplyHalfUnsigned => Ok(wrap32((v1 * v2) / 0x1_0000_0000)),
        IntegerFunct::Divide => Ok(
            if v2 == 0 {
                0xffff_ffff
            } else {
                wrap32(trunc_div(signed(v1), signed(v2)))
            },
        ),
        IntegerFunct::DivideUnsigned => Ok(
            if v2 == 0 {
                0xffff_ffff
            } else {
                v1 / v2
            },
        ),
        IntegerFunct::Remainder => if v2 == 0 {
            Ok(v1)
        } else if signed(v1) == -0x8000_0000 && signed(v2) == -1 {
            Err(ExecError::RemainderOverflow)
        } else {
            Ok(wrap32(trunc_rem(signed(v1), signed(v2))))
        },
        IntegerFunct::RemainderUnsigned => Ok(
            if v2 == 0 {
                v1
            } else {
                v1 % v2
            },
        ),
    }
}

/// Bit `k` of `v`.
pub open spec fn bit(v: u32, k: u32) -> bool {
    (v >> k) & 1 == 1
}

/// The value of the 32 bits `v` read as a two's complement number.
pub open spec fn twos(v: u32) -> int {
    if v < 0x8000_0000 {
        v as int
    } else {
        v - 0x1_0000_0000
    }
}

/// What exclusive or, or and and do to each bit.
pub proof fn lemma_bitwise(a: u32, b: u32)
    by (bit_vector)
    ensures
        forall|k: u32| k < 32 ==> #[trigger] bit(a ^ b, k) == (bit(a, k) != bit(b, k)),
        forall|k: u32| k < 32 ==> #[trigger] bit(a | b, k) == (bit(a, k) || bit(b, k)),
        forall|k: u32| k < 32 ==> #[trigger] bit(a & b, k) == (bit(a, k) && bit(b, k)),
        a ^ a == 0,
{
}

/// The register-register logic operations work bit by bit: `xor` sets a
/// bit where the operands differ (so a value xor itself is 0), `or` where
/// either operand has it, `and` where both have it.
pub proof fn law_integer_logic(v1: u32, v2: u32)
    ensures
        spec_integer_op(IntegerFunct::Xor, v1, v2) is Ok,
        spec_integer_op(IntegerFunct::Or, v1, v2) is Ok,
        spec_integer_op(IntegerFunct::And, v1, v2) is Ok,
        forall|k: u32| k < 32 ==> bit(#[trigger] spec_integer_op(IntegerFunct::Xor, v1, v2)->Ok_0, k) == (bit(v1, k) != bit(v2, k)),
        forall|k: u32| k < 32 ==> bit(#[trigger] spec_integer_op(IntegerFunct::Or, v1, v2)->Ok_0, k) == (bit(v1, k) || bit(v2, k)),
        forall|k: u32| k < 32 ==> bit(#[trigger] spec_integer_op(IntegerFunct::And, v1, v2)->Ok_0, k) == (bit(v1, k) && bit(v2, k)),
        spec_integer_op(IntegerFunct::Xor, v1, v1) == Ok::<u32, ExecError>(0),
{
    lemma_bitwise(v1, v2);
    lemma_bitwise(v1, v1);
}

/// The register-register arithmetic and comparisons: addition,
/// subtraction and multiplication wrap around 2^32; `slt` compares as two's
/// complement numbers and `sltu` as unsigned ones, giving 1 or 0.
pub proof fn law_integer_arith(v1: u32, v2: u32)
    ensures
        spec_integer_op(IntegerFunct::Add, v1, v2) == Ok::<u32, ExecError>(((v1 + v2) % 0x1_0000_0000) as u32),
        spec_integer_op(IntegerFunct::Subtract, v1, v2) == Ok::<u32, ExecError>(((v1 - v2) % 0x1_0000_0000) as u32),
        (spec_integer_op(IntegerFunct::Subtract, v1, v2)->Ok_0 + v2) % 0x1_0000_0000 == v1,
        spec_integer_op(IntegerFunct::Multiply, v1, v2) == Ok::<u32, ExecError>(((v1 * v2) % 0x1_0000_0000) as u32),
        spec_integer_op(IntegerFunct::SetLessThan, v1, v2) == Ok::<u32, ExecError>(if twos(v1) < twos(v2) { 1 } else { 0 }),
        spec_integer_op(IntegerFunct::SetLessThanUnsigned, v1, v2) == Ok::<u32, ExecError>(if v1 < v2 { 1 } else { 0 }),
{
    let d = (v1 - v2) % 0x1_0000_0000;
    vstd::arithmetic::div_mod::lemma_add_mod_noop(v1 - v2, v2 as int, 0x1_0000_0000);
    assert((v2 as int) % 0x1_0000_0000 == v2);
    assert((v1 as int) % 0x1_0000_0000 == v1);
}

/// The register-immediate operations: the 12-bit immediate, sign-extended
/// to 32 bits, is added (wrapping around 2^32), compared (as two's
/// complement numbers for `slti`, unsigned for `sltiu`), or combined bit by
/// bit (`xori`, `ori`, `andi`).
pub proof fn law_immediate_ops(v: u32, i: I12)
    ensures
        ({
            let imm = ((i@ as int) % 0x1_0000_0000) as u32;
            &&& spec_immediate_op(IntImmediateFunct::Imm12(Imm12::Add, i), v) == ((v + i@) % 0x1_0000_0000) as u32
            &&& spec_immediate_op(IntImmediateFunct::Imm12(Imm12::SetLessThan, i), v) == (if twos(v) < i@ { 1u32 } else { 0u32 })
            &&& spec_immediate_op(IntImmediateFunct::Imm12(Imm12::SetLessThanUnsigned, i), v) == (if v < imm { 1u32 } else { 0u32 })
            &&& forall|k: u32| k < 32 ==> bit(#[trigger] spec_immediate_op(IntImmediateFunct::Imm12(Imm12::Xor, i), v), k) == (bit(v, k) != bit(imm, k))
            &&& forall|k: u32| k < 32 ==> bit(#[trigger] spec_immediate_op(IntImmediateFunct::Imm12(Imm12::Or, i), v), k) == (bit(v, k) || bit(imm, k))
            &&& forall|k: u32| k < 32 ==> bit(#[trigger] spec_immediate_op(IntImmediateFunct::Imm12(Imm12::And, i), v), k) == (bit(v, k) && bit(imm, k))
        }),
{
    let imm = ((i@ as int) % 0x1_0000_0000) as u32;
    lemma_bitwise(v, imm);
}

/// What shifts do to each bit (amounts below 32).
pub proof fn lemma_shift_bits(a: u32, n: u32)
    by (bit_vector)
    requires
        n < 32,
    ensures
        forall|k: u32| k < 32 ==> #[trigger] bit(a << n, k) == (k >= n && bit(a, (k - n) as u32)),
        forall|k: u32| k < 32 ==> #[trigger] bit(a >> n, k) == (k + n < 32 && bit(a, (k + n) as u32)),
        forall|k: u32| k < 32 ==> #[trigger] bit(((a as i32) >> n) as u32, k) == (if k + n < 32 {
            bit(a, (k + n) as u32)
        } else {
            bit(a, 31)
        }),
{
}

/// Shifts by a register amount: below 32, `sll` moves every bit up by the
/// amount (zeros come in), `srl` moves every bit down (zeros come in), and
/// `sra` moves every bit down with copies of the sign bit coming in; an
/// amount of 32 or more clears the value (`sra` gives the sign bit in every
/// bit).
pub proof fn law_integer_shifts(v1: u32, v2: u32)
    ensures
        v2 < 32 ==> forall|k: u32| k < 32 ==> bit(#[trigger] spec_integer_op(IntegerFunct::ShiftLeft, v1, v2)->Ok_0, k)
            == (k >= v2 && bit(v1, (k - v2) as u32)),
        v2 < 32 ==> forall|k: u32| k < 32 ==> bit(#[trigger] spec_integer_op(IntegerFunct::ShiftRight, v1, v2)->Ok_0, k)
            == (k + v2 < 32 && bit(v1, (k + v2) as u32)),
        v2 < 32 ==> forall|k: u32| k < 32 ==> bit(#[trigger] spec_integer_op(IntegerFunct::ShiftRightArithmetic, v1, v2)->Ok_0, k)
            == (if k + v2 < 32 { bit(v1, (k + v2) as u32) } else { bit(v1, 31) }),
        v2 >= 32 ==> spec_integer_op(IntegerFunct::ShiftLeft, v1, v2) == Ok::<u32, ExecError>(0),
        v2 >= 32 ==> spec_integer_op(IntegerFunct::ShiftRight, v1, v2) == Ok::<u32, ExecError>(0),
        v2 >= 32 ==> spec_integer_op(IntegerFunct::ShiftRightArithmetic, v1, v2) == Ok::<u32, ExecError>(
            if v1 >= 0x8000_0000 { 0xffff_ffff } else { 0 },
        ),
{
    if v2 < 32 {
        lemma_shift_bits(v1, v2);
    }
}

/// Shifts by an immediate amount (below 32) move the bits as `law_integer_shifts` says.
pub proof fn law_immediate_shifts(v: u32, n: U5)
    requires
        n@ < 32,
    ensures
        forall|k: u32| k < 32 ==> bit(#[trigger] spec_immediate_op(IntImmediateFunct::ImmShift(ImmShift::ShiftLeft, n), v), k)
            == (k >= n@ && bit(v, (k - n@) as u32)),
        forall|k: u32| k < 32 ==> bit(#[trigger] spec_immediate_op(IntImmediateFunct::ImmShift(ImmShift::ShiftRightLogical, n), v), k)
            == (k + n@ < 32 && bit(v, (k + n@) as u32)),
        forall|k: u32| k < 32 ==> bit(#[trigger] spec_immediate_op(IntImmediateFunct::ImmShift(ImmShift::ShiftRightArithmetic, n), v), k)
            == (if k + n@ < 32 { bit(v, (k + n@) as u32) } else { bit(v, 31) }),
{
    lemma_shift_bits(v, n@ as u32);
}

proof fn lemma_sign_extension(b: u8, h: u16)
    by (bit_vector)
    ensures
        (b as i8) as int == (if b < 0x80 { b as int } else { b as int - 0x100 }),
        (h as i16) as int == (if h < 0x8000 { h as int } else { h as int - 0x1_0000 }),
{
}

/// Loads of the signed widths sign-extend and those of the unsigned widths
/// zero-extend: `lb` of a byte `b` gives `b` below 0x80 and `b` with bits
/// 31:8 set from 0x80 on, `lbu` gives `b`; `lh` and `lhu` do the same with
/// the little-endian half at the address; `lw` gives the little-endian word.
pub proof fn law_load_extension(m: Map<u32, u8>, addr: u32)
    ensures
        m.dom().contains(addr) ==> spec_load_int(m, addr, LoadWidth::Byte) == Ok::<u32, MemoryError>(
            if m[addr] < 0x80 { m[addr] as u32 } else { (m[addr] + 0xffff_ff00) as u32 },
        ),
        m.dom().contains(addr) ==> spec_load_int(m, addr, LoadWidth::ByteUnsigned) == Ok::<u32, MemoryError>(m[addr] as u32),
        load_bytes(m, addr, 2) matches Ok(bs) ==> spec_load_int(m, addr, LoadWidth::Half) == Ok::<u32, MemoryError>(
            if bs[0] + 256 * bs[1] < 0x8000 { (bs[0] + 256 * bs[1]) as u32 } else { (bs[0] + 256 * bs[1] + 0xffff_0000) as u32 },
        ),
        load_bytes(m, addr, 2) matches Ok(bs) ==> spec_load_int(m, addr, LoadWidth::HalfUnsigned) == Ok::<u32, MemoryError>(
            (bs[0] + 256 * bs[1]) as u32,
        ),
        load_bytes(m, addr, 4) matches Ok(bs) ==> spec_load_int(m, addr, LoadWidth::Word) == Ok::<u32, MemoryError>(
            (bs[0] + 256 * bs[1] + 0x10000 * bs[2] + 0x100_0000 * bs[3]) as u32,
        ),
{
    if m.dom().contains(addr) {
        lemma_sign_extension(m[addr], 0);
    }
    if let Ok(bs) = load_bytes(m, addr, 2) {
        let h = u16_from_le(bs);
        lemma_sign_extension(0, h);
    }
}

/// Branch conditions: `beq` and `bne` compare for equality, `blt` and
/// `bge` compare as two's complement numbers, `bltu` and `bgeu` as
/// unsigned ones; each pair are opposites.
pub proof fn law_branch_conditions(v1: u32, v2: u32)
    ensures
        branch_taken(BranchType::Equal, v1, v2) == (v1 == v2),
        branch_taken(BranchType::NotEqual, v1, v2) == !branch_taken(BranchType::Equal, v1, v2),
        branch_taken(BranchType::LessThan, v1, v2) == (twos(v1) < twos(v2)),
        branch_taken(BranchType::GreaterThanOrEqual, v1, v2) == !branch_taken(BranchType::LessThan, v1, v2),
        branch_taken(BranchType::LessThanUnsigned, v1, v2) == (v1 < v2),
        branch_taken(BranchType::GreaterThanOrEqualUnsigned, v1, v2) == !branch_taken(BranchType::LessThanUnsigned, v1, v2),
{
}

/// Stores write the low bytes of the register, least significant first:
/// one for `sb`, two for `sh`, four for `sw`.
pub proof fn law_store_bytes(v: u32)
    ensures
        store_int_bytes(v, StoreWidth::Byte) == seq![(v % 0x100) as u8],
        store_int_bytes(v, StoreWidth::Half) == seq![(v % 0x100) as u8, ((v / 0x100) % 0x100) as u8],
        store_int_bytes(v, StoreWidth::Word) == seq![
            (v % 0x100) as u8,
            ((v / 0x100) % 0x100) as u8,
            ((v / 0x1_0000) % 0x100) as u8,
            (v / 0x100_0000) as u8,
        ],
{
}

/// Division by zero gives all ones and the remainder the dividend, for
/// signed and unsigned operands alike.
pub proof fn law_division_by_zero(v: u32)
    ensures
        spec_integer_op(IntegerFunct::Divide, v, 0) == Ok::<u32, ExecError>(0xffff_ffff),
        spec_integer_op(IntegerFunct::DivideUnsigned, v, 0) == Ok::<u32, ExecError>(0xffff_ffff),
        spec_integer_op(IntegerFunct::Remainder, v, 0) == Ok::<u32, ExecError>(v),
        spec_integer_op(IntegerFunct::RemainderUnsigned, v, 0) == Ok::<u32, ExecError>(v),
{
}

/// Unsigned quotient and remainder put the dividend back together.
pub proof fn law_unsigned_div_rem(v1: u32, v2: u32)
    requires
        v2 != 0,
    ensures
        ({
            let q = spec_integer_op(IntegerFunct::DivideUnsigned, v1, v2)->Ok_0;
            let r = spec_integer_op(IntegerFunct::RemainderUnsigned, v1, v2)->Ok_0;
            q * v2 + r == v1 && r < v2
        }),
{
    assert((v1 / v2) * v2 + v1 % v2 == v1) by (nonlinear_arith)
        requires
            v2 != 0,
    ;
}

/// Signed division rounds toward zero, and the remainder takes the sign of
/// the dividend: quotient times divisor plus remainder is the dividend.
pub proof fn law_signed_div_rem(a: int, b: int)
    requires
        b != 0,
    ensures
        trunc_div(a, b) * b + trunc_rem(a, b) == a,
        abs(trunc_rem(a, b)) < abs(b),
{
    let q = abs(a) / abs(b);
    let r = abs(a) % abs(b);
    assert(q * abs(b) + r == abs(a) && 0 <= r < abs(b)) by (nonlinear_arith)
        requires
            abs(b) > 0,
            q == abs(a) / abs(b),
            r == abs(a) % abs(b),
    ;
    if a < 0 && b < 0 {
        assert(q * b == -(q * abs(b))) by (nonlinear_arith)
            requires
                abs(b) == -b,
        ;
    } else if a < 0 {
        assert((-q) * b == -(q * abs(b))) by (nonlinear_arith)
            requires
                abs(b) == b,
        ;
    } else if b < 0 {
        assert((-q) * b == q * abs(b)) by (nonlinear_arith)
            requires
                abs(b) == -b,
        ;
    }
}

/// The most negative number divided by -1 overflows back to itself.
pub proof fn law_division_overflow()
    ensures
        spec_integer_op(IntegerFunct::Divide, 0x8000_0000, 0xffff_ffff) == Ok::<u32, ExecError>(
            0x8000_0000,
        ),
{
    assert(signed(0x8000_0000) == -0x8000_0000);
    assert(signed(0xffff_ffff) == -1);
    assert(trunc_div(-0x8000_0000, -1) == 0x8000_0000) by (nonlinear_arith);
}

/// Setting a register other than x0 makes it read back the value; x0 keeps
/// its value whatever is written to it, and other registers are untouched.
pub proof fn law_set_x(s: MachineState, r: Register, v: u32, other: int)
    requires
        s.x.len() == 32,
        r@ < 32,
        0 <= other < 32,
        other != r@,
    ensures
        r@ != 0 ==> set_x(s, r, v).x[r@ as int] == v,
        set_x(s, r, v).x[0] == s.x[0],
        set_x(s, r, v).x[other] == s.x[other],
        set_x(s, r, v).x.len() == 32,
{
}

proof fn lemma_signed(v: u32)
    ensures
        v as i32 == signed(v),
        (v as i32 as i64) as int == signed(v),
{
    assert(v as i32 == (if v < 0x8000_0000 { v as int } else { v as int - 0x1_0000_0000 }))
        by (bit_vector);
    assert((v as i32 as i64) == (if v < 0x8000_0000 { v as int } else { v as int - 0x1_0000_0000 }))
        by (bit_vector);
}

proof fn lemma_shift_floor(p: i64)
    ensures
        (p >> 32) as u32 == wrap32(p as int / 0x1_0000_0000),
{
    let q = p as u64;
    assert((p >> 32) as u32 == ((p as u64) >> 32) as u32) by (bit_vector);
    assert((p as u64) as int == (if p < 0 { p + 0x1_0000_0000_0000_0000 } else { p as int }))
        by (bit_vector);
    assert(q >> 32 == q / 0x1_0000_0000) by (bit_vector);
    assert(((q >> 32) as u32) as int == (q >> 32) as int % 0x1_0000_0000) by (bit_vector);
}

/// The magnitude of the signed value of `v`, as an unsigned number.
fn magnitude(v: u32) -> (r: u32)
    ensures
        r == abs(signed(v)),
{
    if v >= 0x8000_0000 {
        0u32.wrapping_sub(v)
    } else {
        v
    }
}

/// Runs the register-register operation `funct` on `v1` and `v2`.
#[verifier::rlimit(40)]
pub fn integer_op(funct: IntegerFunct, v1: u32, v2: u32) -> (r: Result<u32, ExecError>)
    ensures
        r == spec_integer_op(funct, v1, v2),
{
    proof {
        lemma_signed(v1);
        lemma_signed(v2);
    }
    match funct {
        IntegerFunct::Add => Ok(v1.wrapping_add(v2)),
        IntegerFunct::ShiftLeft => Ok(
            if v2 < 32 {
                v1 << v2
            } else {
                0
            },
        ),
        IntegerFunct::SetLessThan => Ok(((v1 as i32) < (v2 as i32)) as u32),
        IntegerFunct::SetLessThanUnsigned => Ok((v1 < v2) as u32),
        IntegerFunct::Xor => Ok(v1 ^ v2),
        IntegerFunct::ShiftRight => Ok(
            if v2 < 32 {
                v1 >> v2
            } else {
                0
            },
        ),
        IntegerFunct::Or => Ok(v1 | v2),
        IntegerFunct::And => Ok(v1 & v2),
        IntegerFunct::Subtract => Ok(v1.wrapping_sub(v2)),
        IntegerFunct::ShiftRightArithmetic => Ok(
            if v2 < 32 {
                ((v1 as i32) >> v2) as u32
            } else if (v1 as i32) < 0 {
                0xffff_ffff
            } else {
                0
            },
        ),
        IntegerFunct::Multiply => Ok(v1.wrapping_mul(v2)),
        IntegerFunct::MultiplyHalf => {
            let a = v1 as i32 as i64;
            let b = v2 as i32 as i64;
            assert(-0x8000_0000 <= a < 0x8000_0000 && -0x8000_0000 <= b < 0x8000_0000 ==> -0x4000_0000_0000_0000
                <= a * b <= 0x4000_0000_0000_0000) by (nonlinear_arith);
            let p = a * b;
            proof {
                lemma_shift_floor(p);
            }
            Ok((p >> 32) as u32)
        },
        IntegerFunct::MultiplyHalfSignedUnsigned => {
            let a = v1 as i32 as i64;
            let b = v2 as i64;
            assert(-0x8000_0000 <= a < 0x8000_0000 && 0 <= b < 0x1_0000_0000 ==> -0x8000_0000_0000_0000
                < a * b < 0x8000_0000_0000_0000) by (nonlinear_arith);
            let p = a * b;
            proof {
                lemma_shift_floor(p);
            }
            Ok((p >> 32) as u32)
        },
        IntegerFunct::MultiplyHalfUnsigned => {
            let a = v1 as u64;
            let b = v2 as u64;
            assert(a < 0x1_0000_0000 && b < 0x1_0000_0000 ==> a * b < 0x1_0000_0000_0000_0000)
                by (nonlinear_arith);
            let p = a * b;
            assert(p >> 32 == p / 0x1_0000_0000) by (bit_vector);
            Ok((p >> 32) as u32)
        },
        IntegerFunct::Divide => {
            if v2 == 0 {
                Ok(0xffff_ffff)
            } else {
                let q = magnitude(v1) / magnitude(v2);
                if (v1 >= 0x8000_0000) != (v2 >= 0x8000_0000) {
                    Ok(0u32.wrapping_sub(q))
                } else {
                    Ok(q)
                }
            }
        },
        IntegerFunct::DivideUnsigned => {
            if v2 == 0 {
                Ok(0xffff_ffff)
            } else {
                Ok(v1 / v2)
            }
        },
        IntegerFunct::Remainder => {
            if v2 == 0 {
                Ok(v1)
            } else if v1 == 0x8000_0000 && v2 == 0xffff_ffff {
                Err(ExecError::RemainderOverflow)
            } else {
                let r = magnitude(v1) % magnitude(v2);
                if v1 >= 0x8000_0000 {
                    Ok(0u32.wrapping_sub(r))
                } else {
                    Ok(r)
                }
            }
        },
        IntegerFunct::RemainderUnsigned => {
            if v2 == 0 {
                Ok(v1)
            } else {
                Ok(v1 % v2)
            }
        },
    }
}


/// What an op leaves for its caller to do.
#[derive(Debug, Clone, Copy, PartialEq, Eq, Structural)]
pub enum Flow {
    /// Go on with the next op.
    Continue,
    /// Call the hypervisor's breakpoint handler, then go on.
    Ebreak,
    /// Call the hypervisor's system call handler, then go on.
    Ecall,
    /// Carry out the floating-point computation of the op, then go on.
    Float,
}

/// `s` with the program counter moved past an instruction of `size` bytes.
pub open spec fn advance(s: MachineState, size: u8) -> MachineState {
    MachineState { pc: wrap32(s.pc + size), ..s }
}

/// `s` with integer register `r` set to `v` (x0 stays zero).
pub open spec fn set_x(s: MachineState, r: Register, v: u32) -> MachineState {
    if r@ == 0 {
        s
    } else {
        MachineState { x: s.x.update(r@ as int, v), ..s }
    }
}

/// `s` with floating-point register `r` set to `v`.
pub open spec fn set_f(s: MachineState, r: Register, v: FRegister) -> MachineState {
    MachineState { f: s.f.update(r@ as int, v), ..s }
}

/// The address `offset` bytes from the value of `base`.
pub open spec fn effective_address(s: MachineState, base: Register, offset: int) -> u32 {
    wrap32(s.x[base@ as int] + offset)
}

/// The value that a load of `width` at `addr` puts into a register.
pub open spec fn spec_load_int(m: Map<u32, u8>, addr: u32, width: LoadWidth) -> Result<u32, MemoryError> {
    match width {
        LoadWidth::ByteUnsigned => if m.dom().contains(addr) {
            Ok(m[addr] as u32)
        } else {
            Err(MemoryError::OutOfBoundsLoad(addr))
        },
        LoadWidth::Byte => if m.dom().contains(addr) {
            Ok(wrap32(m[addr] as i8 as int))
        } else {
            Err(MemoryError::OutOfBoundsLoad(addr))
        },
        LoadWidth::HalfUnsigned => match load_bytes(m, addr, 2) {
            Ok(bs) => Ok(u16_from_le(bs) as u32),
            Err(e) => Err(e),
        },
        LoadWidth::Half => match load_bytes(m, addr, 2) {
            Ok(bs) => Ok(wrap32(u16_from_le(bs) as i16 as int)),
            Err(e) => Err(e),
        },
        LoadWidth::Word => match load_bytes(m, addr, 4) {
            Ok(bs) => Ok(u32_from_le(bs)),
            Err(e) => Err(e),
        },
    }
}

/// The bytes that a store of `width` writes for the register value `v`.
pub open spec fn store_int_bytes(v: u32, width: StoreWidth) -> Seq<u8> {
    match width {
        StoreWidth::Byte => seq![(v % 256) as u8],
        StoreWidth::Half => le_bytes_u16((v % 0x10000) as u16),
        StoreWidth::Word => le_bytes_u32(v),
    }
}

/// A register holding the single with bits `v`.
pub open spec fn boxed(v: u32) -> FRegister {
    FRegister { bits: (BOX_MASK + v) as u64 }
}

/// The bits of the single that a register holds.
pub open spec fn unboxed(r: FRegister) -> u32 {
    if is_boxed(r.bits) {
        (r.bits % 0x1_0000_0000) as u32
    } else {
        CANONICAL_NAN_F32_BITS
    }
}

/// Whether a branch of type `t` is taken on operands `v1`, `v2`.
pub open spec fn branch_taken(t: BranchType, v1: u32, v2: u32) -> bool {
    match t {
        BranchType::Equal => v1 == v2,
        BranchType::NotEqual => v1 != v2,
        BranchType::LessThan => signed(v1) < signed(v2),
        BranchType::GreaterThanOrEqual => signed(v1) >= signed(v2),
        BranchType::LessThanUnsigned => v1 < v2,
        BranchType::GreaterThanOrEqualUnsigned => v1 >= v2,
    }
}

/// The value that a register-immediate instruction computes from `v`.
pub open spec fn spec_immediate_op(f: IntImmediateFunct, v: u32) -> u32 {
    match f {
        IntImmediateFunct::ImmShift(ImmShift::ShiftLeft, n) => v << n@,
        IntImmediateFunct::ImmShift(ImmShift::ShiftRightLogical, n) => v >> n@,
        IntImmediateFunct::ImmShift(ImmShift::ShiftRightArithmetic, n) => ((v as i32) >> n@) as u32,
        IntImmediateFunct::Imm12(Imm12::Add, i) => wrap32(v + i@),
        IntImmediateFunct::Imm12(Imm12::SetLessThan, i) => if signed(v) < i@ {
            1
        } else {
            0
        },
        IntImmediateFunct::Imm12(Imm12::SetLessThanUnsigned, i) => if v < wrap32(i@ as int) {
            1
        } else {
            0
        },
        IntImmediateFunct::Imm12(Imm12::Xor, i) => v ^ wrap32(i@ as int),
        IntImmediateFunct::Imm12(Imm12::Or, i) => v | wrap32(i@ as int),
        IntImmediateFunct::Imm12(Imm12::And, i) => v & wrap32(i@ as int),
    }
}

/// The outcome of an op that has done its work, as (state, result).
pub open spec fn done(s: MachineState) -> (MachineState, Result<Flow, ExecError>) {
    (s, Ok(Flow::Continue))
}

/// An integer load: `dest` gets the loaded value; a failed load leaves the
/// registers alone.
pub open spec fn spec_load_int_op(s: MachineState, op: Op, i: LoadInt) -> (MachineState, Result<Flow, ExecError>) {
    let n = advance(s, op.size());
    if op.handler() is Nop {
        done(n)
    } else {
        match spec_load_int(s.mem, effective_address(s, i.base, i.offset@ as int), i.width) {
            Ok(v) => done(set_x(n, i.dest, v)),
            Err(e) => (n, Err(ExecError::Memory(e))),
        }
    }
}

/// The state and result of storing `bs` at `addr` after moving to `n`.
pub open spec fn spec_store(s: MachineState, n: MachineState, addr: u32, bs: Seq<u8>) -> (MachineState, Result<Flow, ExecError>) {
    let t = MachineState { mem: store_bytes_state(s.mem, addr, bs), ..n };
    match store_bytes_result(s.mem, addr, bs) {
        Ok(()) => done(t),
        Err(e) => (t, Err(ExecError::Memory(e))),
    }
}

pub open spec fn spec_store_int_op(s: MachineState, op: Op, i: StoreInt) -> (MachineState, Result<Flow, ExecError>) {
    spec_store(
        s,
        advance(s, op.size()),
        effective_address(s, i.base, i.offset@ as int),
        store_int_bytes(s.x[i.src@ as int], i.width),
    )
}

pub open spec fn spec_load_fp_op(s: MachineState, op: Op, i: LoadFp) -> (MachineState, Result<Flow, ExecError>) {
    let n = advance(s, op.size());
    let addr = effective_address(s, i.base, i.offset@ as int);
    match i.width {
        FpWidth::Word => match load_bytes(s.mem, addr, 4) {
            Ok(bs) => done(set_f(n, i.dest, boxed(u32_from_le(bs)))),
            Err(e) => (n, Err(ExecError::Memory(e))),
        },
        FpWidth::Double => match load_bytes(s.mem, addr, 8) {
            Ok(bs) => done(set_f(n, i.dest, FRegister { bits: u64_from_le(bs) })),
            Err(e) => (n, Err(ExecError::Memory(e))),
        },
    }
}

pub open spec fn spec_store_fp_op(s: MachineState, op: Op, i: StoreFp) -> (MachineState, Result<Flow, ExecError>) {
    let bs = match i.width {
        FpWidth::Word => le_bytes_u32(unboxed(s.f[i.src@ as int])),
        FpWidth::Double => le_bytes_u64(s.f[i.src@ as int].bits),
    };
    spec_store(s, advance(s, op.size()), effective_address(s, i.base, i.offset@ as int), bs)
}

pub open spec fn spec_int_op(s: MachineState, op: Op, i: Int) -> (MachineState, Result<Flow, ExecError>) {
    let n = advance(s, op.size());
    if op.handler() is Nop {
        done(n)
    } else {
        match spec_integer_op(i.funct, s.x[i.src1@ as int], s.x[i.src2@ as int]) {
            Ok(v) => done(set_x(n, i.dest, v)),
            Err(e) => (n, Err(e)),
        }
    }
}

pub open spec fn spec_upper_op(s: MachineState, op: Op, i: U) -> (MachineState, Result<Flow, ExecError>) {
    done(
        set_x(
            advance(s, op.size()),
            i.dest,
            match i.type_ {
                UType::LoadUpperImmediate => (i.imm@ * 0x1000) as u32,
                UType::AddUpperImmediateToPc => wrap32(s.pc + i.imm@ * 0x1000),
            },
        ),
    )
}

/// Atomic operations, run as plain memory accesses on a single core.
pub open spec fn spec_amo_op(s: MachineState, op: Op, i: Amo) -> (MachineState, Result<Flow, ExecError>) {
    let n = advance(s, op.size());
    let addr = s.x[i.src1@ as int];
    let bs = le_bytes_u32(s.x[i.src2@ as int]);
    let t = MachineState { mem: store_bytes_state(s.mem, addr, bs), ..n };
    match i.funct {
        AmoFunct::LoadReserved => if i.src2@ != 0 {
            (n, Err(ExecError::NonZeroOperand))
        } else {
            match load_bytes(s.mem, addr, 4) {
                Ok(v) => done(set_x(n, i.dest, u32_from_le(v))),
                Err(e) => (n, Err(ExecError::Memory(e))),
            }
        },
        AmoFunct::StoreConditional => match store_bytes_result(s.mem, addr, bs) {
            Ok(()) => done(set_x(t, i.dest, 0)),
            Err(e) => (t, Err(ExecError::Memory(e))),
        },
        _ => match load_bytes(s.mem, addr, 4) {
            Ok(old) => match store_bytes_result(s.mem, addr, bs) {
                Ok(()) => done(set_x(t, i.dest, u32_from_le(old))),
                Err(e) => (t, Err(ExecError::Memory(e))),
            },
            Err(e) => (n, Err(ExecError::Memory(e))),
        },
    }
}

/// Jumps and branches: the link register gets the address after the
/// instruction, and the program counter the target.
pub open spec fn spec_jump_op(s: MachineState, op: Op) -> (MachineState, Result<Flow, ExecError>) {
    let after = wrap32(s.pc + op.size());
    match op.instr() {
        Instruction::JumpAndLink(JumpAndLink { dest, offset }) => done(
            MachineState { pc: wrap32(s.pc + offset@), ..set_x(s, dest, after) },
        ),
        Instruction::JumpAndLinkRegister(JumpAndLinkRegister { dest, base, offset }) => done(
            MachineState {
                pc: effective_address(s, base, offset@ as int),
                ..set_x(s, dest, after)
            },
        ),
        Instruction::Branch(Branch { offset, funct, src1, src2 }) => done(
            MachineState {
                pc: if branch_taken(funct, s.x[src1@ as int], s.x[src2@ as int]) {
                    wrap32(s.pc + offset@)
                } else {
                    after
                },
                ..s
            },
        ),
        _ => done(s),
    }
}

/// The state after running `op` in state `s`, and what the op returns.
pub open spec fn spec_execute(s: MachineState, op: Op) -> (MachineState, Result<Flow, ExecError>) {
    let n = advance(s, op.size());
    match op.instr() {
        Instruction::LoadInt(i) => spec_load_int_op(s, op, i),
        Instruction::StoreInt(i) => spec_store_int_op(s, op, i),
        Instruction::LoadFp(i) => spec_load_fp_op(s, op, i),
        Instruction::StoreFp(i) => spec_store_fp_op(s, op, i),
        Instruction::Int(i) => spec_int_op(s, op, i),
        Instruction::IntImmediate(i) => done(
            set_x(n, i.dest, spec_immediate_op(i.funct, s.x[i.src@ as int])),
        ),
        Instruction::U(i) => spec_upper_op(s, op, i),
        Instruction::Fence => done(n),
        Instruction::Fp(_) => (n, Ok(Flow::Float)),
        Instruction::Fused(_) => (n, Ok(Flow::Float)),
        Instruction::Amo(i) => spec_amo_op(s, op, i),
        Instruction::JumpAndLink(_) => spec_jump_op(s, op),
        Instruction::JumpAndLinkRegister(_) => spec_jump_op(s, op),
        Instruction::Branch(_) => spec_jump_op(s, op),
        Instruction::System(System::Ebreak) => (n, Ok(Flow::Ebreak)),
        Instruction::System(System::Ecall) => (n, Ok(Flow::Ecall)),
        Instruction::System(System::Csr(_)) => done(s),
    }
}

proof fn lemma_wrap_i32(v: i32)
    ensures
        v as u32 == wrap32(v as int),
{
    assert(v as u32 == (if v < 0 { v as int + 0x1_0000_0000 } else { v as int })) by (bit_vector);
}

proof fn lemma_casts(v: u32)
    ensures
        v as u8 == (v % 256) as u8,
        v as u16 == (v % 0x10000) as u16,
        v < 0x100000 ==> v << 12 == v * 0x1000,
{
    assert(v as u8 == (v % 256) as u8) by (bit_vector);
    assert(v as u16 == (v % 0x10000) as u16) by (bit_vector);
    assert(v < 0x100000 ==> v << 12 == v * 0x1000) by (bit_vector);
}

/// `base + offset`, wrapping around the address space.
fn address(cpu: &Interpreter, base: Register, offset: crate::instr::I12) -> (r: u32)
    requires
        cpu.wf(),
    ensures
        r == effective_address(cpu.state(), base, offset@ as int),
{
    cpu.read_x(base).wrapping_add_signed(i32::from(offset))
}

impl Op {
    fn execute_load_int(&self, cpu: &mut Interpreter, i: LoadInt) -> (r: Result<Flow, ExecError>)
        requires
            old(cpu).wf(),
            self.instr() == Instruction::LoadInt(i),
            self.handler() is Nop || self.handler() is LoadInt,
            self.handler() is LoadInt ==> i.dest@ != 0,
            self.size() == 2 || self.size() == 4,
        ensures
            final(cpu).wf(),
            (final(cpu).state(), r) == spec_load_int_op(old(cpu).state(), *self, i),
    {
        cpu.pc = cpu.pc.wrapping_add(self.size as u32);
        if let Handler::Nop = self.handler {
            return Ok(Flow::Continue);
        }
        let addr = address(cpu, i.base, i.offset);
        let v = match i.width {
            LoadWidth::ByteUnsigned => match cpu.load_u8(addr) {
                Ok(b) => b as u32,
                Err(e) => {
                    return Err(ExecError::Memory(e));
                },
            },
            LoadWidth::Byte => match cpu.load_i8(addr) {
                Ok(b) => {
                    proof {
                        lemma_wrap_i32(b as i32);
                    }
                    b as i32 as u32
                },
                Err(e) => {
                    return Err(ExecError::Memory(e));
                },
            },
            LoadWidth::HalfUnsigned => match cpu.load_u16(addr) {
                Ok(h) => h as u32,
                Err(e) => {
                    return Err(ExecError::Memory(e));
                },
            },
            LoadWidth::Half => match cpu.load_i16(addr) {
                Ok(h) => {
                    proof {
                        lemma_wrap_i32(h as i32);
                    }
                    h as i32 as u32
                },
                Err(e) => {
                    return Err(ExecError::Memory(e));
                },
            },
            LoadWidth::Word => match cpu.load_u32(addr) {
                Ok(w) => w,
                Err(e) => {
                    return Err(ExecError::Memory(e));
                },
            },
        };
        cpu.write_x_unchecked(i.dest, v);
        Ok(Flow::Continue)
    }

    fn execute_store_int(&self, cpu: &mut Interpreter, i: StoreInt) -> (r: Result<Flow, ExecError>)
        requires
            old(cpu).wf(),
            self.instr() == Instruction::StoreInt(i),
        ensures
            final(cpu).wf(),
            (final(cpu).state(), r) == spec_store_int_op(old(cpu).state(), *self, i),
    {
        let ghost s = cpu.state();
        cpu.pc = cpu.pc.wrapping_add(self.size as u32);
        let addr = address(cpu, i.base, i.offset);
        let v = cpu.read_x(i.src);
        proof {
            lemma_casts(v);
        }
        let r = match i.width {
            StoreWidth::Byte => {
                proof {
                    lemma_store_one_byte(s.mem, addr, (v % 256) as u8);
                }
                cpu.store_u8(addr, v as u8)
            },
            StoreWidth::Half => cpu.store_u16(addr, v as u16),
            StoreWidth::Word => cpu.store_u32(addr, v),
        };
        match r {
            Ok(()) => Ok(Flow::Continue),
            Err(e) => Err(ExecError::Memory(e)),
        }
    }

    fn execute_load_fp(&self, cpu: &mut Interpreter, i: LoadFp) -> (r: Result<Flow, ExecError>)
        requires
            old(cpu).wf(),
            self.instr() == Instruction::LoadFp(i),
        ensures
            final(cpu).wf(),
            (final(cpu).state(), r) == spec_load_fp_op(old(cpu).state(), *self, i),
    {
        cpu.pc = cpu.pc.wrapping_add(self.size as u32);
        let addr = address(cpu, i.base, i.offset);
        let v = match i.width {
            FpWidth::Word => match cpu.load_u32(addr) {
                Ok(w) => FRegister::write_f32_bits(w),
                Err(e) => {
                    return Err(ExecError::Memory(e));
                },
            },
            FpWidth::Double => match cpu.load_u64(addr) {
                Ok(d) => FRegister::write_f64_bits(d),
                Err(e) => {
                    return Err(ExecError::Memory(e));
                },
            },
        };
        cpu.write_f(i.dest, v);
        Ok(Flow::Continue)
    }

    fn execute_store_fp(&self, cpu: &mut Interpreter, i: StoreFp) -> (r: Result<Flow, ExecError>)
        requires
            old(cpu).wf(),
            self.instr() == Instruction::StoreFp(i),
        ensures
            final(cpu).wf(),
            (final(cpu).state(), r) == spec_store_fp_op(old(cpu).state(), *self, i),
    {
        cpu.pc = cpu.pc.wrapping_add(self.size as u32);
        let addr = address(cpu, i.base, i.offset);
        let v = cpu.read_f(i.src);
        let r = match i.width {
            FpWidth::Word => cpu.store_u32(addr, v.read_f32_bits()),
            FpWidth::Double => cpu.store_u64(addr, v.read_f64_bits()),
        };
        match r {
            Ok(()) => Ok(Flow::Continue),
            Err(e) => Err(ExecError::Memory(e)),
        }
    }

    fn execute_int(&self, cpu: &mut Interpreter, i: Int) -> (r: Result<Flow, ExecError>)
        requires
            old(cpu).wf(),
            self.instr() == Instruction::Int(i),
            self.handler() is Nop || self.handler() is Int,
            self.handler() is Int ==> i.dest@ != 0,
        ensures
            final(cpu).wf(),
            (final(cpu).state(), r) == spec_int_op(old(cpu).state(), *self, i),
    {
        cpu.pc = cpu.pc.wrapping_add(self.size as u32);
        if let Handler::Nop = self.handler {
            return Ok(Flow::Continue);
        }
        let v1 = cpu.read_x(i.src1);
        let v2 = cpu.read_x(i.src2);
        let v = integer_op(i.funct, v1, v2)?;
        cpu.write_x_unchecked(i.dest, v);
        Ok(Flow::Continue)
    }

    fn execute_int_immediate(&self, cpu: &mut Interpreter, i: IntImmediate) -> (r: Result<
        Flow,
        ExecError,
    >)
        requires
            old(cpu).wf(),
            self.instr() == Instruction::IntImmediate(i),
        ensures
            final(cpu).wf(),
            (final(cpu).state(), r) == done(
                set_x(
                    advance(old(cpu).state(), self.size()),
                    i.dest,
                    spec_immediate_op(i.funct, old(cpu).state().x[i.src@ as int]),
                ),
            ),
    {
        cpu.pc = cpu.pc.wrapping_add(self.size as u32);
        if i.dest.index() == 0 {
            return Ok(Flow::Continue);
        }
        let v = cpu.read_x(i.src);
        proof {
            lemma_signed(v);
        }
        let r = match i.funct {
            IntImmediateFunct::ImmShift(ImmShift::ShiftLeft, n) => v << (u8::from(n) as u32),
            IntImmediateFunct::ImmShift(ImmShift::ShiftRightLogical, n) => v >> (u8::from(n) as u32),
            IntImmediateFunct::ImmShift(ImmShift::ShiftRightArithmetic, n) => ((v as i32) >> (
            u8::from(n) as u32)) as u32,
            IntImmediateFunct::Imm12(Imm12::Add, n) => {
                proof {
                    lemma_wrap_i32(n@ as i32);
                }
                v.wrapping_add(i32::from(n) as u32)
            },
            IntImmediateFunct::Imm12(Imm12::SetLessThan, n) => ((v as i32) < i32::from(n)) as u32,
            IntImmediateFunct::Imm12(Imm12::SetLessThanUnsigned, n) => {
                proof {
                    lemma_wrap_i32(n@ as i32);
                }
                (v < (i32::from(n) as u32)) as u32
            },
            IntImmediateFunct::Imm12(Imm12::Xor, n) => {
                proof {
                    lemma_wrap_i32(n@ as i32);
                }
                v ^ (i32::from(n) as u32)
            },
            IntImmediateFunct::Imm12(Imm12::Or, n) => {
                proof {
                    lemma_wrap_i32(n@ as i32);
                }
                v | (i32::from(n) as u32)
            },
            IntImmediateFunct::Imm12(Imm12::And, n) => {
                proof {
                    lemma_wrap_i32(n@ as i32);
                }
                v & (i32::from(n) as u32)
            },
        };
        cpu.write_x_unchecked(i.dest, r);
        Ok(Flow::Continue)
    }

    fn execute_upper(&self, cpu: &mut Interpreter, i: U) -> (r: Result<Flow, ExecError>)
        requires
            old(cpu).wf(),
            self.instr() == Instruction::U(i),
        ensures
            final(cpu).wf(),
            (final(cpu).state(), r) == spec_upper_op(old(cpu).state(), *self, i),
    {
        let pc = cpu.pc;
        cpu.pc = cpu.pc.wrapping_add(self.size as u32);
        if i.dest.index() == 0 {
            return Ok(Flow::Continue);
        }
        let upper = u32::from(i.imm);
        proof {
            lemma_casts(upper);
        }
        let v = match i.type_ {
            UType::LoadUpperImmediate => upper << 12,
            UType::AddUpperImmediateToPc => pc.wrapping_add(upper << 12),
        };
        cpu.write_x_unchecked(i.dest, v);
        Ok(Flow::Continue)
    }

    fn execute_amo(&self, cpu: &mut Interpreter, i: Amo) -> (r: Result<Flow, ExecError>)
        requires
            old(cpu).wf(),
            self.instr() == Instruction::Amo(i),
        ensures
            final(cpu).wf(),
            (final(cpu).state(), r) == spec_amo_op(old(cpu).state(), *self, i),
    {
        cpu.pc = cpu.pc.wrapping_add(self.size as u32);
        let addr = cpu.read_x(i.src1);
        match i.funct {
            AmoFunct::LoadReserved => {
                if i.src2.index() != 0 {
                    return Err(ExecError::NonZeroOperand);
                }
                match cpu.load_u32(addr) {
                    Ok(v) => {
                        cpu.write_x(i.dest, v);
                        Ok(Flow::Continue)
                    },
                    Err(e) => Err(ExecError::Memory(e)),
                }
            },
            AmoFunct::StoreConditional => {
                let v = cpu.read_x(i.src2);
                match cpu.store_u32(addr, v) {
                    Ok(()) => {
                        cpu.write_x(i.dest, 0);
                        Ok(Flow::Continue)
                    },
                    Err(e) => Err(ExecError::Memory(e)),
                }
            },
            _ => {
                // swap
                let old = match cpu.load_u32(addr) {
                    Ok(v) => v,
                    Err(e) => {
                        return Err(ExecError::Memory(e));
                    },
                };
                let v = cpu.read_x(i.src2);
                match cpu.store_u32(addr, v) {
                    Ok(()) => {
                        cpu.write_x(i.dest, old);
                        Ok(Flow::Continue)
                    },
                    Err(e) => Err(ExecError::Memory(e)),
                }
            },
        }
    }

    fn execute_jump(&self, cpu: &mut Interpreter) -> (r: Result<Flow, ExecError>)
        requires
            old(cpu).wf(),
            self.instr() is JumpAndLink || self.instr() is JumpAndLinkRegister || self.instr() is Branch,
        ensures
            final(cpu).wf(),
            (final(cpu).state(), r) == spec_jump_op(old(cpu).state(), *self),
    {
        let next = cpu.pc.wrapping_add(self.size as u32);
        match self.instr {
            Instruction::JumpAndLink(JumpAndLink { dest, offset }) => {
                let target = cpu.pc.wrapping_add_signed(i32::from(offset));
                cpu.write_x(dest, next);
                cpu.pc = target;
            },
            Instruction::JumpAndLinkRegister(JumpAndLinkRegister { dest, base, offset }) => {
                let target = address(cpu, base, offset);
                cpu.write_x(dest, next);
                cpu.pc = target;
            },
            Instruction::Branch(Branch { offset, funct, src1, src2 }) => {
                let v1 = cpu.read_x(src1);
                let v2 = cpu.read_x(src2);
                proof {
                    lemma_signed(v1);
                    lemma_signed(v2);
                }
                let taken = match funct {
                    BranchType::Equal => v1 == v2,
                    BranchType::NotEqual => v1 != v2,
                    BranchType::LessThan => (v1 as i32) < (v2 as i32),
                    BranchType::GreaterThanOrEqual => (v1 as i32) >= (v2 as i32),
                    BranchType::LessThanUnsigned => v1 < v2,
                    BranchType::GreaterThanOrEqualUnsigned => v1 >= v2,
                };
                if taken {
                    cpu.pc = cpu.pc.wrapping_add_signed(i32::from(offset));
                } else {
                    cpu.pc = next;
                }
            },
            _ => {},
        }
        Ok(Flow::Continue)
    }

    /// Runs the op on `cpu`.  The program counter moves past the
    /// instruction first (jumps and branches set it instead), so an op that
    /// fails leaves it there.
    pub fn execute(&self, cpu: &mut Interpreter) -> (r: Result<Flow, ExecError>)
        requires
            old(cpu).wf(),
        ensures
            final(cpu).wf(),
            (final(cpu).state(), r) == spec_execute(old(cpu).state(), *self),
    {
        proof {
            use_type_invariant(self);
        }
        match self.instr {
            Instruction::LoadInt(i) => self.execute_load_int(cpu, i),
            Instruction::StoreInt(i) => self.execute_store_int(cpu, i),
            Instruction::LoadFp(i) => self.execute_load_fp(cpu, i),
            Instruction::StoreFp(i) => self.execute_store_fp(cpu, i),
            Instruction::Int(i) => self.execute_int(cpu, i),
            Instruction::IntImmediate(i) => self.execute_int_immediate(cpu, i),
            Instruction::U(i) => self.execute_upper(cpu, i),
            Instruction::Amo(i) => self.execute_amo(cpu, i),
            Instruction::JumpAndLink(_) => self.execute_jump(cpu),
            Instruction::JumpAndLinkRegister(_) => self.execute_jump(cpu),
            Instruction::Branch(_) => self.execute_jump(cpu),
            Instruction::Fence => {
                cpu.pc = cpu.pc.wrapping_add(self.size as u32);
                Ok(Flow::Continue)
            },
            Instruction::Fp(_) | Instruction::Fused(_) => {
                cpu.pc = cpu.pc.wrapping_add(self.size as u32);
                Ok(Flow::Float)
            },
            Instruction::System(System::Ebreak) => {
                cpu.pc = cpu.pc.wrapping_add(self.size as u32);
                Ok(Flow::Ebreak)
            },
            Instruction::System(System::Ecall) => {
                cpu.pc = cpu.pc.wrapping_add(self.size as u32);
                Ok(Flow::Ecall)
            },
            Instruction::System(System::Csr(_)) => {
                // no op is ever built for a CSR instruction
                proof {
                    assert(false);
                }
                Ok(Flow::Continue)
            },
        }
    }
}

/// Succeeds for the rounding modes that the floating-point routines
/// implement: to nearest with ties to even, and dynamic.
pub fn nte(rounding_mode: RoundingMode) -> (r: Result<(), ExecError>)
    ensures
        r is Ok <==> (rounding_mode is NearestTieToEven || rounding_mode is Dynamic),
        r is Err ==> r == Err::<(), ExecError>(ExecError::RoundingModeNotImplemented),
{
    match rounding_mode {
        RoundingMode::NearestTieToEven | RoundingMode::Dynamic => Ok(()),
        _ => Err(ExecError::RoundingModeNotImplemented),
    }
}

/// How running a block stopped.
#[derive(Debug, Clone, Copy, PartialEq, Eq, Structural)]
pub enum BlockExit {
    /// Every op ran.
    Done,
    /// An op asks its caller for outside work (`Flow::Ebreak`, `Flow::Ecall`
    /// or `Flow::Float`); the run goes on from the op at the index given.
    Host(Flow, usize),
}

/// The state after running `ops` from index `i` on, and how the run stopped.
pub open spec fn spec_run(s: MachineState, ops: Seq<Op>, i: int) -> (MachineState, Result<BlockExit, ExecError>)
    decreases ops.len() - i,
{
    if i < 0 || i >= ops.len() {
        (s, Ok(BlockExit::Done))
    } else {
        let (t, r) = spec_execute(s, ops[i]);
        match r {
            Err(e) => (t, Err(e)),
            Ok(Flow::Continue) => spec_run(t, ops, i + 1),
            Ok(f) => (t, Ok(BlockExit::Host(f, (i + 1) as usize))),
        }
    }
}

/// A straight-line run of ops, as decoded from one entry address.
#[derive(Clone, Copy)]
pub struct Block<'arena> {
    ops: &'arena [Op],
}

impl<'arena> Block<'arena> {
    pub closed spec fn ops(self) -> Seq<Op> {
        self.ops@
    }

    /// A block holding a copy of `ops`, allocated in `arena`.
    pub fn new(arena: &'arena bumpalo::Bump, ops: &[Op]) -> (r: Block<'arena>)
        ensures
            r.ops() == ops@,
    {
        Block { ops: alloc_ops(arena, ops) }
    }

    /// The number of ops.
    pub fn len(&self) -> (r: usize)
        ensures
            r == self.ops().len(),
    {
        self.ops.len()
    }

    /// The op at index `i`.
    pub fn op(&self, i: usize) -> (r: Op)
        requires
            i < self.ops().len(),
        ensures
            r == self.ops()[i as int],
    {
        self.ops[i]
    }

    /// Runs the ops from index `start` on, until one fails or asks for
    /// outside work.
    pub fn execute(&self, cpu: &mut Interpreter, start: usize) -> (r: Result<BlockExit, ExecError>)
        requires
            old(cpu).wf(),
        ensures
            final(cpu).wf(),
            (final(cpu).state(), r) == spec_run(old(cpu).state(), self.ops(), start as int),
    {
        let mut i = start;
        while i < self.ops.len()
            invariant
                cpu.wf(),
                start <= i,
                spec_run(old(cpu).state(), self.ops(), start as int) == spec_run(
                    cpu.state(),
                    self.ops(),
                    i as int,
                ),
            decreases self.ops@.len() - i,
        {
            let op = self.ops[i];
            match op.execute(cpu) {
                Err(e) => {
                    return Err(e);
                },
                Ok(Flow::Continue) => {},
                Ok(f) => {
                    return Ok(BlockExit::Host(f, i + 1));
                },
            }
            i += 1;
        }
        Ok(BlockExit::Done)
    }
}

/// Copies `ops` into `arena` (bumpalo's `Bump::alloc_slice_copy`); the
/// copy holds the same ops.
#[verifier::external_body]
fn alloc_ops<'arena>(arena: &'arena bumpalo::Bump, ops: &[Op]) -> (r: &'arena [Op])
    ensures
        r@ == ops@,
{
    arena.alloc_slice_copy(ops)
}

/// The block cached for `pc` (`HashMap::get` on an FNV-hashed map); the
/// FNV hasher is deterministic, so the map behaves as a map.
#[verifier::external_body]
fn cache_get<'arena>(cache: &fnv::FnvHashMap<u32, Block<'arena>>, pc: u32) -> (r: Option<
    Block<'arena>,
>)
    ensures
        r == (if cache@.contains_key(pc) {
            Some(cache@[pc])
        } else {
            None
        }),
{
    cache.get(&pc).copied()
}

/// Caches `block` for `pc` (`HashMap::insert` on an FNV-hashed map).
#[verifier::external_body]
fn cache_insert<'arena>(cache: &mut fnv::FnvHashMap<u32, Block<'arena>>, pc: u32, block: Block<'arena>)
    ensures
        final(cache)@ == old(cache)@.insert(pc, block),
{
    cache.insert(pc, block);
}

/// The most ops a block can hold.
pub const BLOCK_LIMIT: usize = 0xffff_ffff;

/// The instruction at `pc` and its size, or why it cannot be had.
#[verifier::opaque]
pub open spec fn spec_fetch(m: Map<u32, u8>, pc: u32) -> Result<(Instruction, u8), ExecError> {
    if !m.dom().contains(pc) {
        Err(ExecError::Memory(MemoryError::OutOfBoundsLoad(pc)))
    } else if m[pc] & 0b11 != 0b11 {
        match load_bytes(m, pc, 2) {
            Err(e) => Err(ExecError::Memory(e)),
            Ok(bs) => {
                let h = u16_from_le(bs);
                if is_lwsp_without_dest(h) {
                    Err(ExecError::ReservedCompressed)
                } else {
                    match spec_decode_compressed(h) {
                        Ok(instr) => Ok((instr, 2)),
                        Err(e) => Err(ExecError::Decode(e)),
                    }
                }
            },
        }
    } else {
        match load_bytes(m, pc, 4) {
            Err(e) => Err(ExecError::Memory(e)),
            Ok(bs) => match spec_decode(u32_from_le(bs)) {
                Ok(instr) => Ok((instr, 4)),
                Err(e) => Err(ExecError::Decode(e)),
            },
        }
    }
}

/// The ops of the block that starts at `pc`: instructions in order, jumps
/// (JAL) followed to their target, up to and including the first branch or
/// indirect jump; at most `fuel` more ops may follow the first.
pub open spec fn spec_block(m: Map<u32, u8>, pc: u32, fuel: nat) -> Result<Seq<Op>, ExecError>
    decreases fuel,
{
    match spec_fetch(m, pc) {
        Err(e) => Err(e),
        Ok((instr, size)) => if op_new_panics(instr, size) || spec_handler(instr) is None {
            Err(ExecError::NotImplemented)
        } else {
            let op = Op::spec_new(instr, size);
            if instr is JumpAndLinkRegister || instr is Branch {
                Ok(seq![op])
            } else if fuel == 0 {
                Err(ExecError::BlockTooLong)
            } else {
                let next = match instr {
                    Instruction::JumpAndLink(j) => wrap32(pc + j.offset@),
                    _ => wrap32(pc + size),
                };
                match spec_block(m, next, (fuel - 1) as nat) {
                    Ok(rest) => Ok(seq![op] + rest),
                    Err(e) => Err(e),
                }
            }
        },
    }
}

/// Whether `r` is the block that `spec` describes, or the same error.
pub open spec fn block_result<'arena>(r: Result<Block<'arena>, ExecError>, spec: Result<Seq<Op>, ExecError>) -> bool {
    match spec {
        Ok(ops) => r is Ok && r->Ok_0.ops() == ops,
        Err(e) => r is Err && r->Err_0 == e,
    }
}

/// `ops` in front of the ops of `r`.
pub open spec fn prepend(ops: Seq<Op>, r: Result<Seq<Op>, ExecError>) -> Result<Seq<Op>, ExecError> {
    match r {
        Ok(rest) => Ok(ops + rest),
        Err(e) => Err(e),
    }
}

/// The slot of the hot cache that holds the block for `pc`.
pub open spec fn hot_key(pc: u32) -> int {
    (pc as int / 4) % (super::HOT_SIZE as int)
}

impl<'arena> Interpreter<'arena> {
    pub closed spec fn hot(&self) -> Seq<Option<(u32, Block<'arena>)>> {
        self.hot_cache@
    }

    pub closed spec fn cache(&self) -> Map<u32, Block<'arena>> {
        self.block_cache@
    }

    /// Reads and decodes the instruction at `pc`.
    fn fetch(&self, pc: u32) -> (r: Result<(Instruction, u8), ExecError>)
        requires
            self.wf(),
        ensures
            r == spec_fetch(self.state().mem, pc),
    {
        reveal(spec_fetch);
        let first = match self.load_u8(pc) {
            Ok(b) => b,
            Err(e) => {
                return Err(ExecError::Memory(e));
            },
        };
        if Instruction::next_is_compressed(first) {
            let h = match self.load_u16(pc) {
                Ok(h) => h,
                Err(e) => {
                    return Err(ExecError::Memory(e));
                },
            };
            if h & 3 == 2 && h >> 13 == 2 && (h >> 7) & 31 == 0 {
                return Err(ExecError::ReservedCompressed);
            }
            match Instruction::decode_compressed(h) {
                Ok(instr) => Ok((instr, 2)),
                Err(e) => Err(ExecError::Decode(e)),
            }
        } else {
            let w = match self.load_u32(pc) {
                Ok(w) => w,
                Err(e) => {
                    return Err(ExecError::Memory(e));
                },
            };
            match Instruction::decode(w) {
                Ok(instr) => Ok((instr, 4)),
                Err(e) => Err(ExecError::Decode(e)),
            }
        }
    }

    /// Decodes the block that starts at `pc` into the arena.
    fn decode_block(&mut self, start: u32) -> (r: Result<Block<'arena>, ExecError>)
        requires
            old(self).wf(),
        ensures
            final(self).wf(),
            final(self).state() == old(self).state(),
            final(self).hot() == old(self).hot(),
            final(self).cache() == old(self).cache(),
            block_result(r, spec_block(old(self).state().mem, start, BLOCK_LIMIT as nat)),
    {
        self.block_scratch.clear();
        let ghost m = self.state().mem;
        let mut pc = start;
        let ghost pc0 = start;
        loop
            invariant_except_break
                pc0 == start,
                self.wf(),
                self.state() == old(self).state(),
                self.hot() == old(self).hot(),
                self.cache() == old(self).cache(),
                m == self.state().mem,
                self.block_scratch@.len() <= BLOCK_LIMIT,
                spec_block(m, pc0, BLOCK_LIMIT as nat) == prepend(
                    self.block_scratch@,
                    spec_block(m, pc, (BLOCK_LIMIT - self.block_scratch@.len()) as nat),
                ),
            ensures
                self.wf(),
                self.state() == old(self).state(),
                self.hot() == old(self).hot(),
                self.cache() == old(self).cache(),
                spec_block(m, pc0, BLOCK_LIMIT as nat) == Ok::<Seq<Op>, ExecError>(
                    self.block_scratch@,
                ),
            decreases BLOCK_LIMIT - self.block_scratch@.len(),
        {
            let ghost fuel = (BLOCK_LIMIT - self.block_scratch@.len()) as nat;
            let (instr, size) = match self.fetch(pc) {
                Ok(f) => f,
                Err(e) => {
                    assert(spec_block(m, pc, fuel) == Err::<Seq<Op>, ExecError>(e));
                    return Err(e);
                },
            };
            let h = match handler_of(instr) {
                Some(h) => h,
                None => {
                    return Err(ExecError::NotImplemented);
                },
            };
            if !routine_exists(h, size) {
                return Err(ExecError::NotImplemented);
            }
            let op = Op::new(instr, size)?;
            match instr {
                Instruction::JumpAndLinkRegister(_) | Instruction::Branch(_) => {
                    let ghost before = self.block_scratch@;
                    self.block_scratch.push(op);
                    assert(self.block_scratch@ =~= before + seq![op]);
                    break ;
                },
                _ => {},
            }
            if self.block_scratch.len() == BLOCK_LIMIT {
                assert(spec_block(m, pc, fuel) == Err::<Seq<Op>, ExecError>(ExecError::BlockTooLong));
                return Err(ExecError::BlockTooLong);
            }
            let ghost before = self.block_scratch@;
            self.block_scratch.push(op);
            let next = match instr {
                Instruction::JumpAndLink(JumpAndLink { offset, .. }) => pc.wrapping_add_signed(
                    i32::from(offset),
                ),
                _ => pc.wrapping_add(size as u32),
            };
            proof {
                assert(spec_block(m, pc, fuel) == prepend(
                    seq![op],
                    spec_block(m, next, (fuel - 1) as nat),
                ));
                assert(self.block_scratch@ =~= before + seq![op]);
                match spec_block(m, next, (fuel - 1) as nat) {
                    Ok(rest) => {
                        assert(before + (seq![op] + rest) =~= (before + seq![op]) + rest);
                    },
                    Err(_) => {},
                }
            }
            pc = next;
        }
        Ok(Block::new(self.arena, self.block_scratch.as_slice()))
    }
}


impl<'arena> Interpreter<'arena> {
    /// Finds the block to run at the program counter: the one in the hot
    /// cache's slot for it, else the one in the block cache (which then
    /// takes the slot), else a freshly decoded one (which both caches then
    /// hold).  Execution at address 0 is refused.
    pub fn prepare_block(&mut self) -> (r: Result<Block<'arena>, ExecError>)
        requires
            old(self).wf(),
        ensures
            final(self).wf(),
            final(self).state() == old(self).state(),
            ({
                let pc = old(self).state().pc;
                let k = hot_key(pc);
                let slot = old(self).hot()[k];
                if pc == 0 {
                    &&& r == Err::<Block<'arena>, ExecError>(
                        ExecError::ExecuteAtZero(old(self).state().x[1]),
                    )
                    &&& final(self).hot() == old(self).hot()
                    &&& final(self).cache() == old(self).cache()
                } else if slot is Some && slot->Some_0.0 == pc {
                    &&& r == Ok::<Block<'arena>, ExecError>(slot->Some_0.1)
                    &&& final(self).hot() == old(self).hot()
                    &&& final(self).cache() == old(self).cache()
                } else if old(self).cache().contains_key(pc) {
                    &&& r == Ok::<Block<'arena>, ExecError>(old(self).cache()[pc])
                    &&& final(self).hot() == old(self).hot().update(
                        k,
                        Some((pc, old(self).cache()[pc])),
                    )
                    &&& final(self).cache() == old(self).cache()
                } else {
                    &&& block_result(r, spec_block(old(self).state().mem, pc, BLOCK_LIMIT as nat))
                    &&& r matches Ok(b) ==> final(self).cache() == old(self).cache().insert(pc, b)
                        && final(self).hot() == old(self).hot().update(k, Some((pc, b)))
                    &&& r is Err ==> final(self).cache() == old(self).cache() && final(self).hot()
                        == old(self).hot()
                }
            }),
    {
        if self.pc == 0 {
            return Err(ExecError::ExecuteAtZero(self.read_x(Register::ra())));
        }
        let pc = self.pc;
        let key = ((pc >> 2) as usize) & (super::HOT_SIZE - 1);
        assert(((pc >> 2) as usize) & 0x3fffusize == (pc / 4) % 0x4000) by (bit_vector);
        if let Some((p, b)) = self.hot_cache[key] {
            if p == pc {
                return Ok(b);
            }
        }
        match cache_get(&self.block_cache, pc) {
            Some(b) => {
                self.hot_cache.set(key, Some((pc, b)));
                Ok(b)
            },
            None => {
                let b = self.decode_block(pc)?;
                cache_insert(&mut self.block_cache, pc, b);
                self.hot_cache.set(key, Some((pc, b)));
                Ok(b)
            },
        }
    }

    /// Starts a call of the subroutine at `sub`: the program counter moves
    /// there and the return address is the sentinel u32::MAX, which the
    /// program counter holds again once the subroutine has returned.
    /// Refused while another call is running.
    pub fn begin_subroutine(&mut self, sub: u32) -> (r: Result<(), ExecError>)
        requires
            old(self).wf(),
        ensures
            final(self).wf(),
            final(self).hot() == old(self).hot(),
            final(self).cache() == old(self).cache(),
            old(self).state().pc != u32::MAX ==> r == Err::<(), ExecError>(ExecError::AlreadyRunning)
                && final(self).state() == old(self).state(),
            old(self).state().pc == u32::MAX ==> r is Ok && final(self).state() == (MachineState {
                pc: sub,
                x: old(self).state().x.update(1, u32::MAX),
                ..old(self).state()
            }),
    {
        if self.pc != u32::MAX {
            return Err(ExecError::AlreadyRunning);
        }
        self.pc = sub;
        self.x.set(1, u32::MAX);
        Ok(())
    }
}

/// Running a jump, a branch, a register-immediate or an upper-immediate
/// instruction: a jump links the address after it (in a destination other
/// than x0) and goes to its target (the pc plus the offset for `jal`, the
/// base register plus the offset for `jalr`); a branch goes to the pc plus
/// its offset when its condition holds and past itself otherwise, leaving
/// the registers alone; the other two write their value to the destination
/// and go past themselves.  All addresses wrap around 2^32.
pub proof fn law_execute_control(s: MachineState, op: Op)
    requires
        s.x.len() == 32,
    ensures
        ({
            let r = spec_execute(s, op);
            let after = ((s.pc + op.size()) % 0x1_0000_0000) as u32;
            &&& op.instr() matches Instruction::JumpAndLink(j) ==> r.1 == Ok::<Flow, ExecError>(Flow::Continue)
                && r.0.pc == ((s.pc + j.offset@) % 0x1_0000_0000) as u32
                && (0 < j.dest@ < 32 ==> r.0.x[j.dest@ as int] == after)
            &&& op.instr() matches Instruction::JumpAndLinkRegister(j) ==> r.1 == Ok::<Flow, ExecError>(Flow::Continue)
                && r.0.pc == ((s.x[j.base@ as int] + j.offset@) % 0x1_0000_0000) as u32
                && (0 < j.dest@ < 32 ==> r.0.x[j.dest@ as int] == after)
            &&& op.instr() matches Instruction::Branch(b) ==> r.1 == Ok::<Flow, ExecError>(Flow::Continue)
                && r.0.x == s.x
                && r.0.pc == (if twos(s.x[b.src1@ as int]) < twos(s.x[b.src2@ as int]) && b.funct is LessThan
                    || s.x[b.src1@ as int] < s.x[b.src2@ as int] && b.funct is LessThanUnsigned
                    || !(twos(s.x[b.src1@ as int]) < twos(s.x[b.src2@ as int])) && b.funct is GreaterThanOrEqual
                    || !(s.x[b.src1@ as int] < s.x[b.src2@ as int]) && b.funct is GreaterThanOrEqualUnsigned
                    || s.x[b.src1@ as int] == s.x[b.src2@ as int] && b.funct is Equal
                    || s.x[b.src1@ as int] != s.x[b.src2@ as int] && b.funct is NotEqual {
                    ((s.pc + b.offset@) % 0x1_0000_0000) as u32
                } else {
                    after
                })
            &&& op.instr() matches Instruction::IntImmediate(i) ==> r.1 == Ok::<Flow, ExecError>(Flow::Continue)
                && r.0.pc == after
                && (0 < i.dest@ < 32 ==> r.0.x[i.dest@ as int] == spec_immediate_op(i.funct, s.x[i.src@ as int]))
            &&& op.instr() matches Instruction::U(u) ==> r.1 == Ok::<Flow, ExecError>(Flow::Continue)
                && r.0.pc == after
                && (0 < u.dest@ < 32 ==> r.0.x[u.dest@ as int] == (if u.type_ is LoadUpperImmediate {
                    (u.imm@ * 0x1000) as u32
                } else {
                    ((s.pc + u.imm@ * 0x1000) % 0x1_0000_0000) as u32
                }))
        }),
{
}

} // verus!
