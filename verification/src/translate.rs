use vstd::prelude::*;

use crate::instr::{
    Instruction, Register, IntegerFunct, IntImmediateFunct, Imm12, ImmShift, UType, LoadWidth,
    StoreWidth, System, FpWidth, FloatFunct, RoundingMode, FloatWidth, FuseType, AmoFunct, Int,
    IntImmediate, U, LoadInt, StoreInt, LoadFp, StoreFp, Fp, Fused, Amo,
};

use crate::interpreter::exec::{spec_integer_op, spec_immediate_op, branch_taken};
use crate::translate::epilogue::branch_op;

pub mod blocks;
pub mod epilogue;
pub mod module;
pub mod assemble;

verus! {

/// The type of a WebAssembly block.
#[derive(Debug, Clone, Copy, PartialEq, Eq, Structural)]
pub enum BlockTy {
    /// A block that leaves one `i32`.
    ResultI32,
    /// A block that leaves one `f32`.
    ResultF32,
    /// A block with the function type of this index.
    Function(u32),
}

/// The WebAssembly instructions that translated code is made of.  Memory
/// accesses use offset 0, alignment 1 and memory 0.
#[derive(Debug, Clone, Copy, PartialEq, Eq, Structural)]
pub enum Wasm {
    I32Const(i32),
    I64Const(i64),
    /// An `f32.const` with these bits.
    F32Const(u32),
    LocalGet(u32),
    LocalSet(u32),
    If(BlockTy),
    Else,
    End,
    Return,
    Call(u32),
    ReturnCall(u32),
    /// `return_call_indirect` with this type index and table index.
    ReturnCallIndirect(u32, u32),
    Unreachable,
    Drop,
    I32Add,
    I32Sub,
    I32Mul,
    I32DivS,
    I32DivU,
    I32RemS,
    I32RemU,
    I32And,
    I32Or,
    I32Xor,
    I32Shl,
    I32ShrS,
    I32ShrU,
    I32Eqz,
    I32Eq,
    I32Ne,
    I32LtS,
    I32LtU,
    I32GeS,
    I32GeU,
    I32WrapI64,
    I32ReinterpretF32,
    I32TruncSatF32S,
    I32TruncSatF32U,
    I32TruncSatF64S,
    I32TruncSatF64U,
    I64ExtendI32S,
    I64ExtendI32U,
    I64Mul,
    I64ShrS,
    I64ShrU,
    I64Or,
    I64Eq,
    I64ReinterpretF64,
    F32Add,
    F32Sub,
    F32Mul,
    F32Div,
    F32Copysign,
    F32Neg,
    F32Abs,
    F32Min,
    F32Max,
    F32Eq,
    F32Lt,
    F32Le,
    F32ConvertI32S,
    F32ConvertI32U,
    F32ReinterpretI32,
    F32DemoteF64,
    F64Add,
    F64Sub,
    F64Mul,
    F64Div,
    F64Sqrt,
    F64Copysign,
    F64Neg,
    F64Abs,
    F64Min,
    F64Max,
    F64Eq,
    F64Lt,
    F64Le,
    F64ConvertI32S,
    F64ConvertI32U,
    F64PromoteF32,
    F64ReinterpretI64,
    I32Load,
    I32Load8S,
    I32Load8U,
    I32Load16S,
    I32Load16U,
    I32Store,
    I32Store8,
    I32Store16,
    F32Store,
    F64Load,
    F64Store,
}

/// Why an instruction or a block could not be translated.
#[derive(Debug, Clone, Copy, PartialEq, Eq, Structural)]
pub enum TranslateError {
    /// The instruction at this address has no translation.
    Unsupported(u32),
    /// A jump goes to this address, where no block starts.
    UnknownTarget(u32),
    /// The block table is empty.
    NoBlocks,
    /// The code could not be decoded at this address.
    Decode(u32),
    /// An instruction at this address runs past the end of the code.
    Truncated(u32),
    /// The code ends inside the block that starts at this address.
    Unterminated(u32),
    /// The image has no `.text` section.
    NoText,
    /// The bytes of `.text` could not be read.
    UnreadableText,
    /// `.text` runs past the end of the 32-bit address space.
    TextTooLarge,
    /// The first block is not at the address the runtime expects; holds its
    /// address.
    MisplacedCode(u32),
    /// A symbol's name could not be read as UTF-8.
    BadSymbolName,
    /// A function symbol at this address does not start a block.
    NotABlockStart(u32),
    /// A data symbol's address does not fit in 32 bits.
    AddressTooLarge(u64),
    /// The blocks are not listed by increasing even address.
    BadBlockList,
    /// There are too many blocks to number their functions in 32 bits.
    TooManyBlocks,
    /// There are too many symbols to number the globals in 32 bits.
    TooManySymbols,
    /// The bytes are not a little-endian 32-bit ELF file.
    NotAnElf,
}

/// The local that holds integer register `r` (x1 to x31 are locals 0 to 30).
pub open spec fn x_local(r: Register) -> u32 {
    (r@ - 1) as u32
}

/// The local that holds floating-point register `r` (locals 31 to 62).
pub open spec fn f_local(r: Register) -> u32 {
    (r@ + 31) as u32
}

/// Code that pushes the value of integer register `r` (x0 reads as 0).
pub open spec fn read_x(r: Register) -> Seq<Wasm> {
    if r@ == 0 {
        seq![Wasm::I32Const(0)]
    } else {
        seq![Wasm::LocalGet(x_local(r))]
    }
}

/// Code that turns the double on the stack into the single it NaN-boxes,
/// or the canonical NaN; `src` is read again for the single's bits.
pub open spec fn unbox(src: Register) -> Seq<Wasm> {
    seq![
        Wasm::I64ReinterpretF64,
        Wasm::I64Const(32),
        Wasm::I64ShrS,
        Wasm::I64Const(-1i64),
        Wasm::I64Eq,
        Wasm::If(BlockTy::ResultF32),
        Wasm::LocalGet(f_local(src)),
        Wasm::I64ReinterpretF64,
        Wasm::I32WrapI64,
        Wasm::F32ReinterpretI32,
        Wasm::Else,
        Wasm::F32Const(0x7fc0_0000),
        Wasm::End,
    ]
}

/// Code that NaN-boxes the single on the stack into a double.
pub open spec fn box_single() -> Seq<Wasm> {
    seq![
        Wasm::I32ReinterpretF32,
        Wasm::I64ExtendI32U,
        Wasm::I64Const(0xffff_ffff_0000_0000u64 as i64),
        Wasm::I64Or,
        Wasm::F64ReinterpretI64,
    ]
}

/// Code that saves `r` from the top of the stack, dropped for x0.
pub open spec fn set_x(r: Register) -> Seq<Wasm> {
    seq![Wasm::LocalSet(x_local(r))]
}

/// The result of a division or remainder whose divisor is zero is the
/// first item; code for the others follows the `else`.
pub open spec fn zero_divisor_guard(dest: Register, src1: Register, src2: Register, on_zero: Seq<Wasm>, op: Wasm) -> Seq<Wasm> {
    read_x(src2) + seq![Wasm::I32Eqz, Wasm::If(BlockTy::ResultI32)] + on_zero + seq![Wasm::Else]
        + read_x(src1) + read_x(src2) + seq![op, Wasm::End] + set_x(dest)
}

/// The code for a register-register integer instruction writing `dest`.
pub open spec fn lower_int(i: Int) -> Seq<Wasm> {
    let (dest, src1, src2) = (i.dest, i.src1, i.src2);
    match i.funct {
        IntegerFunct::Divide => zero_divisor_guard(
            dest,
            src1,
            src2,
            seq![Wasm::I32Const(-1i32)],
            Wasm::I32DivS,
        ),
        IntegerFunct::DivideUnsigned => zero_divisor_guard(
            dest,
            src1,
            src2,
            seq![Wasm::I32Const(-1i32)],
            Wasm::I32DivU,
        ),
        IntegerFunct::Remainder => zero_divisor_guard(dest, src1, src2, read_x(src1), Wasm::I32RemS),
        IntegerFunct::RemainderUnsigned => zero_divisor_guard(
            dest,
            src1,
            src2,
            read_x(src1),
            Wasm::I32RemU,
        ),
        IntegerFunct::MultiplyHalf => read_x(src1) + seq![Wasm::I64ExtendI32S] + read_x(src2) + seq![
            Wasm::I64ExtendI32S,
            Wasm::I64Mul,
            Wasm::I64Const(32),
            Wasm::I64ShrU,
            Wasm::I32WrapI64,
        ] + set_x(dest),
        IntegerFunct::MultiplyHalfUnsigned => read_x(src1) + seq![Wasm::I64ExtendI32U] + read_x(src2)
            + seq![
            Wasm::I64ExtendI32U,
            Wasm::I64Mul,
            Wasm::I64Const(32),
            Wasm::I64ShrU,
            Wasm::I32WrapI64,
        ] + set_x(dest),
        IntegerFunct::MultiplyHalfSignedUnsigned => read_x(src1) + seq![Wasm::I64ExtendI32S]
            + read_x(src2) + seq![
            Wasm::I64ExtendI32U,
            Wasm::I64Mul,
            Wasm::I64Const(32),
            Wasm::I64ShrU,
            Wasm::I32WrapI64,
        ] + set_x(dest),
        f => read_x(src1) + read_x(src2) + seq![int_op(f)] + set_x(dest),
    }
}

/// The WebAssembly operation for the plain register-register operations.
pub open spec fn int_op(f: IntegerFunct) -> Wasm {
    match f {
        IntegerFunct::Add => Wasm::I32Add,
        IntegerFunct::ShiftLeft => Wasm::I32Shl,
        IntegerFunct::SetLessThan => Wasm::I32LtS,
        IntegerFunct::SetLessThanUnsigned => Wasm::I32LtU,
        IntegerFunct::Xor => Wasm::I32Xor,
        IntegerFunct::ShiftRight => Wasm::I32ShrU,
        IntegerFunct::Or => Wasm::I32Or,
        IntegerFunct::And => Wasm::I32And,
        IntegerFunct::Subtract => Wasm::I32Sub,
        IntegerFunct::ShiftRightArithmetic => Wasm::I32ShrS,
        _ => Wasm::I32Mul,
    }
}

/// The code for a register-immediate instruction writing `dest`.
pub open spec fn lower_int_immediate(i: IntImmediate) -> Seq<Wasm> {
    read_x(i.src) + match i.funct {
        IntImmediateFunct::Imm12(f, imm) => seq![
            Wasm::I32Const(imm@ as i32),
            match f {
                Imm12::Add => Wasm::I32Add,
                Imm12::SetLessThan => Wasm::I32LtS,
                Imm12::SetLessThanUnsigned => Wasm::I32LtU,
                Imm12::Xor => Wasm::I32Xor,
                Imm12::Or => Wasm::I32Or,
                Imm12::And => Wasm::I32And,
            },
        ],
        IntImmediateFunct::ImmShift(f, amount) => seq![
            Wasm::I32Const(amount@ as i32),
            match f {
                ImmShift::ShiftLeft => Wasm::I32Shl,
                ImmShift::ShiftRightLogical => Wasm::I32ShrU,
                ImmShift::ShiftRightArithmetic => Wasm::I32ShrS,
            },
        ],
    } + set_x(i.dest)
}

/// The value an upper-immediate instruction at `pc` puts into its register.
pub open spec fn upper_value(pc: u32, i: U) -> u32 {
    match i.type_ {
        UType::AddUpperImmediateToPc => ((pc + i.imm@ * 0x1000) % 0x1_0000_0000) as u32,
        UType::LoadUpperImmediate => (i.imm@ * 0x1000) as u32,
    }
}

/// Code that pushes `base + offset`.
pub open spec fn address(base: Register, offset: crate::instr::I12) -> Seq<Wasm> {
    read_x(base) + seq![Wasm::I32Const(offset@ as i32), Wasm::I32Add]
}

/// Code that saves every register local on the stack.
pub open spec fn get_all() -> Seq<Wasm> {
    Seq::new(63, |i: int| Wasm::LocalGet(i as u32))
}

/// Code that restores every register local from the stack.
pub open spec fn set_all() -> Seq<Wasm> {
    Seq::new(63, |i: int| Wasm::LocalSet((62 - i) as u32))
}

/// Code for a double operation on `src1` and `src2` into `dest`, or none
/// where the operation has no translation.
pub open spec fn lower_double(i: Fp) -> Option<Seq<Wasm>> {
    let op = match i.funct {
        FloatFunct::AddDouble => Some(seq![Wasm::F64Add]),
        FloatFunct::SubtractDouble => Some(seq![Wasm::F64Sub]),
        FloatFunct::MultiplyDouble => Some(seq![Wasm::F64Mul]),
        FloatFunct::DivideDouble => Some(seq![Wasm::F64Div]),
        FloatFunct::InjectSignDouble => match i.rounding_mode {
            RoundingMode::NearestTieToEven => Some(seq![Wasm::F64Copysign]),
            RoundingMode::Zero => Some(seq![Wasm::F64Neg, Wasm::F64Copysign]),
            RoundingMode::Down => if i.src1 == i.src2 {
                Some(seq![Wasm::Drop, Wasm::F64Abs])
            } else {
                None
            },
            _ => None,
        },
        _ => match i.rounding_mode {
            RoundingMode::NearestTieToEven => Some(seq![Wasm::F64Min]),
            RoundingMode::Zero => Some(seq![Wasm::F64Max]),
            _ => None,
        },
    };
    match op {
        Some(op) => Some(
            seq![Wasm::LocalGet(f_local(i.src1)), Wasm::LocalGet(f_local(i.src2))] + op + seq![
                Wasm::LocalSet(f_local(i.dest)),
            ],
        ),
        None => None,
    }
}

/// Code for a single operation on `src1` and `src2` into `dest`, or none
/// where the operation has no translation.
pub open spec fn lower_single(i: Fp) -> Option<Seq<Wasm>> {
    let op = match i.funct {
        FloatFunct::AddSingle => Some(seq![Wasm::F32Add]),
        FloatFunct::SubtractSingle => Some(seq![Wasm::F32Sub]),
        FloatFunct::MultiplySingle => Some(seq![Wasm::F32Mul]),
        FloatFunct::DivideSingle => Some(seq![Wasm::F32Div]),
        FloatFunct::InjectSignSingle => match i.rounding_mode {
            RoundingMode::NearestTieToEven => Some(seq![Wasm::F32Copysign]),
            RoundingMode::Zero => Some(seq![Wasm::F32Neg, Wasm::F32Copysign]),
            RoundingMode::Down => if i.src1 == i.src2 {
                Some(seq![Wasm::Drop, Wasm::F32Abs])
            } else {
                None
            },
            _ => None,
        },
        _ => match i.rounding_mode {
            RoundingMode::NearestTieToEven => Some(seq![Wasm::F32Min]),
            RoundingMode::Zero => Some(seq![Wasm::F32Max]),
            _ => None,
        },
    };
    match op {
        Some(op) => Some(
            seq![Wasm::LocalGet(f_local(i.src1))] + unbox(i.src1) + seq![Wasm::LocalGet(f_local(i.src2))]
                + unbox(i.src2) + op + box_single() + seq![Wasm::LocalSet(f_local(i.dest))],
        ),
        None => None,
    }
}

/// Code for a floating-point instruction, or none where it has no
/// translation.
pub open spec fn lower_fp(i: Fp) -> Option<Seq<Wasm>> {
    let (dest, src1, src2, rm) = (i.dest, i.src1, i.src2, i.rounding_mode);
    match i.funct {
        FloatFunct::AddDouble | FloatFunct::SubtractDouble | FloatFunct::MultiplyDouble
        | FloatFunct::DivideDouble | FloatFunct::InjectSignDouble | FloatFunct::MinMaxDouble =>
            lower_double(i),
        FloatFunct::AddSingle | FloatFunct::SubtractSingle | FloatFunct::MultiplySingle
        | FloatFunct::DivideSingle | FloatFunct::InjectSignSingle | FloatFunct::MinMaxSingle =>
            lower_single(i),
        FloatFunct::SquareRootDouble => if src2@ != 0 {
            None
        } else {
            Some(seq![Wasm::LocalGet(f_local(src1)), Wasm::F64Sqrt, Wasm::LocalSet(f_local(dest))])
        },
        FloatFunct::SquareRootSingle => None,
        FloatFunct::ConvertFromWordSingle => if src2@ == 0 {
            Some(read_x(src1) + seq![Wasm::F32ConvertI32S] + box_single() + seq![Wasm::LocalSet(f_local(dest))])
        } else if src2@ == 1 {
            Some(read_x(src1) + seq![Wasm::F32ConvertI32U] + box_single() + seq![Wasm::LocalSet(f_local(dest))])
        } else {
            None
        },
        FloatFunct::ConvertFromWordDouble => if src2@ == 0 {
            Some(read_x(src1) + seq![Wasm::F64ConvertI32S, Wasm::LocalSet(f_local(dest))])
        } else if src2@ == 1 {
            Some(read_x(src1) + seq![Wasm::F64ConvertI32U, Wasm::LocalSet(f_local(dest))])
        } else {
            None
        },
        FloatFunct::MoveFromXSingle => if src2@ != 0 {
            None
        } else {
            Some(read_x(src1) + seq![Wasm::F32ReinterpretI32] + box_single() + seq![Wasm::LocalSet(f_local(dest))])
        },
        FloatFunct::CompareDouble => if dest@ == 0 {
            Some(Seq::empty())
        } else {
            match rm {
                RoundingMode::NearestTieToEven => Some(seq![Wasm::LocalGet(f_local(src1)), Wasm::LocalGet(f_local(src2)), Wasm::F64Le] + set_x(dest)),
                RoundingMode::Zero => Some(seq![Wasm::LocalGet(f_local(src1)), Wasm::LocalGet(f_local(src2)), Wasm::F64Lt] + set_x(dest)),
                RoundingMode::Down => Some(seq![Wasm::LocalGet(f_local(src1)), Wasm::LocalGet(f_local(src2)), Wasm::F64Eq] + set_x(dest)),
                _ => None,
            }
        },
        FloatFunct::CompareSingle => if dest@ == 0 {
            Some(Seq::empty())
        } else {
            let operands = seq![Wasm::LocalGet(f_local(src1))] + unbox(src1) + seq![Wasm::LocalGet(f_local(src2))] + unbox(src2);
            match rm {
                RoundingMode::NearestTieToEven => Some(operands + seq![Wasm::F32Le] + set_x(dest)),
                RoundingMode::Zero => Some(operands + seq![Wasm::F32Lt] + set_x(dest)),
                RoundingMode::Down => Some(operands + seq![Wasm::F32Eq] + set_x(dest)),
                _ => None,
            }
        },
        FloatFunct::ConvertToWordDouble => if dest@ == 0 {
            Some(Seq::empty())
        } else if src2@ == 0 {
            Some(seq![Wasm::LocalGet(f_local(src1)), Wasm::I32TruncSatF64S] + set_x(dest))
        } else if src2@ == 1 {
            Some(seq![Wasm::LocalGet(f_local(src1)), Wasm::I32TruncSatF64U] + set_x(dest))
        } else {
            None
        },
        FloatFunct::ConvertToWordSingle => if dest@ == 0 {
            Some(Seq::empty())
        } else if src2@ == 0 {
            Some(seq![Wasm::LocalGet(f_local(src1))] + unbox(src1) + seq![Wasm::I32TruncSatF32S] + set_x(dest))
        } else if src2@ == 1 {
            Some(seq![Wasm::LocalGet(f_local(src1))] + unbox(src1) + seq![Wasm::I32TruncSatF32U] + set_x(dest))
        } else {
            None
        },
        FloatFunct::MoveToXSingle => if dest@ == 0 {
            Some(Seq::empty())
        } else if src2@ != 0 || !(rm is NearestTieToEven) {
            None
        } else {
            Some(seq![Wasm::LocalGet(f_local(src1))] + unbox(src1) + seq![Wasm::I32ReinterpretF32] + set_x(dest))
        },
        FloatFunct::ConvertDoubleToSingle => if src2@ != 1 {
            None
        } else {
            Some(seq![Wasm::LocalGet(f_local(src1)), Wasm::F32DemoteF64] + box_single() + seq![Wasm::LocalSet(f_local(dest))])
        },
        FloatFunct::ConvertSingleToDouble => if src2@ != 0 {
            None
        } else {
            Some(seq![Wasm::LocalGet(f_local(src1))] + unbox(src1) + seq![Wasm::F64PromoteF32, Wasm::LocalSet(f_local(dest))])
        },
        FloatFunct::ClassifyDouble => None,
    }
}

/// Code for a fused multiply-add, or none where it has no translation.
pub open spec fn lower_fused(i: Fused) -> Option<Seq<Wasm>> {
    match i.width {
        FloatWidth::Double => {
            let negate = i.type_ is NegatedMultiplySubtract || i.type_ is NegatedMultiplyAdd;
            let add = i.type_ is MultiplyAdd || i.type_ is NegatedMultiplySubtract;
            Some(
                seq![Wasm::LocalGet(f_local(i.src1)), Wasm::LocalGet(f_local(i.src2)), Wasm::F64Mul]
                    + (if negate { seq![Wasm::F64Neg] } else { Seq::empty() })
                    + seq![Wasm::LocalGet(f_local(i.src3)), if add { Wasm::F64Add } else { Wasm::F64Sub }, Wasm::LocalSet(f_local(i.dest))],
            )
        },
        FloatWidth::Single => None,
    }
}

/// Code for an atomic memory operation, or none where it has no
/// translation.
pub open spec fn lower_amo(i: Amo) -> Option<Seq<Wasm>> {
    let (dest, src1, src2) = (i.dest, i.src1, i.src2);
    let keep = dest@ != 0;
    match i.funct {
        AmoFunct::LoadReserved => if src2@ != 0 {
            None
        } else if keep {
            Some(read_x(src1) + seq![Wasm::I32Load] + set_x(dest))
        } else {
            Some(Seq::empty())
        },
        AmoFunct::StoreConditional => Some(
            read_x(src1) + read_x(src2) + seq![Wasm::I32Store] + if keep {
                seq![Wasm::I32Const(0)] + set_x(dest)
            } else {
                Seq::empty()
            },
        ),
        AmoFunct::Swap => Some(
            (if keep { read_x(src1) + seq![Wasm::I32Load] } else { Seq::empty() }) + read_x(src1)
                + read_x(src2) + seq![Wasm::I32Store] + if keep { set_x(dest) } else { Seq::empty() },
        ),
        AmoFunct::Add | AmoFunct::And | AmoFunct::Or | AmoFunct::Xor => Some(
            (if keep { read_x(src1) + seq![Wasm::I32Load] } else { Seq::empty() }) + read_x(src1)
                + read_x(src1) + seq![Wasm::I32Load] + read_x(src2) + seq![
                match i.funct {
                    AmoFunct::Add => Wasm::I32Add,
                    AmoFunct::And => Wasm::I32And,
                    AmoFunct::Or => Wasm::I32Or,
                    _ => Wasm::I32Xor,
                },
                Wasm::I32Store,
            ] + if keep { set_x(dest) } else { Seq::empty() },
        ),
        _ => None,
    }
}

/// The code for the instruction `instr` at `pc` inside a block, or why it
/// has none.
pub open spec fn lower(pc: u32, instr: Instruction) -> Result<Seq<Wasm>, TranslateError> {
    let none = Err(TranslateError::Unsupported(pc));
    match instr {
        Instruction::Int(i) => if i.dest@ == 0 {
            Ok(Seq::empty())
        } else {
            Ok(lower_int(i))
        },
        Instruction::IntImmediate(i) => if i.dest@ == 0 {
            Ok(Seq::empty())
        } else {
            Ok(lower_int_immediate(i))
        },
        Instruction::U(i) => if i.dest@ == 0 {
            Ok(Seq::empty())
        } else {
            Ok(seq![Wasm::I32Const(upper_value(pc, i) as i32)] + set_x(i.dest))
        },
        Instruction::LoadInt(i) => if i.dest@ == 0 {
            Ok(Seq::empty())
        } else {
            Ok(address(i.base, i.offset) + seq![
                match i.width {
                    LoadWidth::Byte => Wasm::I32Load8S,
                    LoadWidth::ByteUnsigned => Wasm::I32Load8U,
                    LoadWidth::Half => Wasm::I32Load16S,
                    LoadWidth::HalfUnsigned => Wasm::I32Load16U,
                    LoadWidth::Word => Wasm::I32Load,
                },
            ] + set_x(i.dest))
        },
        Instruction::StoreInt(i) => Ok(address(i.base, i.offset) + read_x(i.src) + seq![
            match i.width {
                StoreWidth::Byte => Wasm::I32Store8,
                StoreWidth::Half => Wasm::I32Store16,
                StoreWidth::Word => Wasm::I32Store,
            },
        ]),
        Instruction::Fence => Ok(Seq::empty()),
        Instruction::System(sys) => Ok(get_all() + match sys {
            System::Ebreak => seq![Wasm::Call(0)],
            System::Ecall => seq![Wasm::Call(1)],
            System::Csr(_) => seq![Wasm::Unreachable],
        } + set_all()),
        Instruction::LoadFp(i) => Ok(address(i.base, i.offset) + match i.width {
            FpWidth::Double => seq![Wasm::F64Load],
            FpWidth::Word => seq![
                Wasm::I32Load,
                Wasm::I64ExtendI32U,
                Wasm::I64Const(0xffff_ffff_0000_0000u64 as i64),
                Wasm::I64Or,
                Wasm::F64ReinterpretI64,
            ],
        } + seq![Wasm::LocalSet(f_local(i.dest))]),
        Instruction::StoreFp(i) => Ok(address(i.base, i.offset) + seq![Wasm::LocalGet(f_local(i.src))]
            + match i.width {
            FpWidth::Double => seq![Wasm::F64Store],
            FpWidth::Word => unbox(i.src) + seq![Wasm::F32Store],
        }),
        Instruction::Fp(i) => match lower_fp(i) {
            Some(c) => Ok(c),
            None => none,
        },
        Instruction::Fused(i) => match lower_fused(i) {
            Some(c) => Ok(c),
            None => none,
        },
        Instruction::Amo(i) => match lower_amo(i) {
            Some(c) => Ok(c),
            None => none,
        },
        _ => none,
    }
}

/// `a` followed by `b`.
fn cat(a: Vec<Wasm>, b: Vec<Wasm>) -> (r: Vec<Wasm>)
    ensures
        r@ == a@ + b@,
{
    let mut a = a;
    let mut b = b;
    a.append(&mut b);
    a
}

fn x_of(r: Register) -> (l: u32)
    requires
        r@ != 0,
    ensures
        l == x_local(r),
{
    r.index() as u32 - 1
}

fn f_of(r: Register) -> (l: u32)
    ensures
        l == f_local(r),
{
    r.index() as u32 + 31
}

fn read_x_code(r: Register) -> (c: Vec<Wasm>)
    ensures
        c@ == read_x(r),
{
    if r.index() == 0 {
        vec![Wasm::I32Const(0)]
    } else {
        vec![Wasm::LocalGet(x_of(r))]
    }
}

fn set_x_code(r: Register) -> (c: Vec<Wasm>)
    requires
        r@ != 0,
    ensures
        c@ == set_x(r),
{
    vec![Wasm::LocalSet(x_of(r))]
}

fn unbox_code(src: Register) -> (c: Vec<Wasm>)
    ensures
        c@ == unbox(src),
{
    vec![
        Wasm::I64ReinterpretF64,
        Wasm::I64Const(32),
        Wasm::I64ShrS,
        Wasm::I64Const(-1),
        Wasm::I64Eq,
        Wasm::If(BlockTy::ResultF32),
        Wasm::LocalGet(f_of(src)),
        Wasm::I64ReinterpretF64,
        Wasm::I32WrapI64,
        Wasm::F32ReinterpretI32,
        Wasm::Else,
        Wasm::F32Const(0x7fc0_0000),
        Wasm::End,
    ]
}

fn box_code() -> (c: Vec<Wasm>)
    ensures
        c@ == box_single(),
{
    vec![
        Wasm::I32ReinterpretF32,
        Wasm::I64ExtendI32U,
        Wasm::I64Const(0xffff_ffff_0000_0000u64 as i64),
        Wasm::I64Or,
        Wasm::F64ReinterpretI64,
    ]
}

fn address_code(base: Register, offset: crate::instr::I12) -> (c: Vec<Wasm>)
    ensures
        c@ == address(base, offset),
{
    cat(read_x_code(base), vec![Wasm::I32Const(i32::from(offset)), Wasm::I32Add])
}

fn get_all_code() -> (c: Vec<Wasm>)
    ensures
        c@ == get_all(),
{
    let mut c: Vec<Wasm> = Vec::new();
    let mut i: u32 = 0;
    while i < 63
        invariant
            i <= 63,
            c@ == Seq::new(i as nat, |k: int| Wasm::LocalGet(k as u32)),
        decreases 63 - i,
    {
        c.push(Wasm::LocalGet(i));
        assert(c@ =~= Seq::new((i + 1) as nat, |k: int| Wasm::LocalGet(k as u32)));
        i += 1;
    }
    assert(c@ =~= get_all());
    c
}

fn set_all_code() -> (c: Vec<Wasm>)
    ensures
        c@ == set_all(),
{
    let mut c: Vec<Wasm> = Vec::new();
    let mut i: u32 = 0;
    while i < 63
        invariant
            i <= 63,
            c@ == Seq::new(i as nat, |k: int| Wasm::LocalSet((62 - k) as u32)),
        decreases 63 - i,
    {
        c.push(Wasm::LocalSet(62 - i));
        assert(c@ =~= Seq::new((i + 1) as nat, |k: int| Wasm::LocalSet((62 - k) as u32)));
        i += 1;
    }
    assert(c@ =~= set_all());
    c
}

fn zero_divisor_code(dest: Register, src1: Register, src2: Register, on_zero: Vec<Wasm>, op: Wasm) -> (c: Vec<Wasm>)
    requires
        dest@ != 0,
    ensures
        c@ == zero_divisor_guard(dest, src1, src2, on_zero@, op),
{
    let c = cat(read_x_code(src2), vec![Wasm::I32Eqz, Wasm::If(BlockTy::ResultI32)]);
    let c = cat(c, on_zero);
    let c = cat(c, vec![Wasm::Else]);
    let c = cat(c, read_x_code(src1));
    let c = cat(c, read_x_code(src2));
    let c = cat(c, vec![op, Wasm::End]);
    cat(c, set_x_code(dest))
}

fn multiply_high_code(i: Int, first: Wasm, second: Wasm) -> (c: Vec<Wasm>)
    requires
        i.dest@ != 0,
    ensures
        c@ == read_x(i.src1) + seq![first] + read_x(i.src2) + seq![
            second,
            Wasm::I64Mul,
            Wasm::I64Const(32),
            Wasm::I64ShrU,
            Wasm::I32WrapI64,
        ] + set_x(i.dest),
{
    let c = cat(read_x_code(i.src1), vec![first]);
    let c = cat(c, read_x_code(i.src2));
    let c = cat(c, vec![second, Wasm::I64Mul, Wasm::I64Const(32), Wasm::I64ShrU, Wasm::I32WrapI64]);
    cat(c, set_x_code(i.dest))
}

fn int_code(i: Int) -> (c: Vec<Wasm>)
    requires
        i.dest@ != 0,
    ensures
        c@ == lower_int(i),
{
    let (dest, src1, src2) = (i.dest, i.src1, i.src2);
    match i.funct {
        IntegerFunct::Divide => zero_divisor_code(dest, src1, src2, vec![Wasm::I32Const(-1)], Wasm::I32DivS),
        IntegerFunct::DivideUnsigned => zero_divisor_code(dest, src1, src2, vec![Wasm::I32Const(-1)], Wasm::I32DivU),
        IntegerFunct::Remainder => zero_divisor_code(dest, src1, src2, read_x_code(src1), Wasm::I32RemS),
        IntegerFunct::RemainderUnsigned => zero_divisor_code(dest, src1, src2, read_x_code(src1), Wasm::I32RemU),
        IntegerFunct::MultiplyHalf => multiply_high_code(i, Wasm::I64ExtendI32S, Wasm::I64ExtendI32S),
        IntegerFunct::MultiplyHalfUnsigned => multiply_high_code(i, Wasm::I64ExtendI32U, Wasm::I64ExtendI32U),
        IntegerFunct::MultiplyHalfSignedUnsigned => multiply_high_code(i, Wasm::I64ExtendI32S, Wasm::I64ExtendI32U),
        f => {
            let op = match f {
                IntegerFunct::Add => Wasm::I32Add,
                IntegerFunct::ShiftLeft => Wasm::I32Shl,
                IntegerFunct::SetLessThan => Wasm::I32LtS,
                IntegerFunct::SetLessThanUnsigned => Wasm::I32LtU,
                IntegerFunct::Xor => Wasm::I32Xor,
                IntegerFunct::ShiftRight => Wasm::I32ShrU,
                IntegerFunct::Or => Wasm::I32Or,
                IntegerFunct::And => Wasm::I32And,
                IntegerFunct::Subtract => Wasm::I32Sub,
                IntegerFunct::ShiftRightArithmetic => Wasm::I32ShrS,
                _ => Wasm::I32Mul,
            };
            let c = cat(read_x_code(src1), read_x_code(src2));
            let c = cat(c, vec![op]);
            cat(c, set_x_code(dest))
        },
    }
}

fn int_immediate_code(i: IntImmediate) -> (c: Vec<Wasm>)
    requires
        i.dest@ != 0,
    ensures
        c@ == lower_int_immediate(i),
{
    let ops = match i.funct {
        IntImmediateFunct::Imm12(f, imm) => vec![
            Wasm::I32Const(i32::from(imm)),
            match f {
                Imm12::Add => Wasm::I32Add,
                Imm12::SetLessThan => Wasm::I32LtS,
                Imm12::SetLessThanUnsigned => Wasm::I32LtU,
                Imm12::Xor => Wasm::I32Xor,
                Imm12::Or => Wasm::I32Or,
                Imm12::And => Wasm::I32And,
            },
        ],
        IntImmediateFunct::ImmShift(f, amount) => vec![
            Wasm::I32Const(u8::from(amount) as i32),
            match f {
                ImmShift::ShiftLeft => Wasm::I32Shl,
                ImmShift::ShiftRightLogical => Wasm::I32ShrU,
                ImmShift::ShiftRightArithmetic => Wasm::I32ShrS,
            },
        ],
    };
    let c = cat(read_x_code(i.src), ops);
    cat(c, set_x_code(i.dest))
}

fn double_code(i: Fp) -> (c: Option<Vec<Wasm>>)
    requires
        i.funct is AddDouble || i.funct is SubtractDouble || i.funct is MultiplyDouble
            || i.funct is DivideDouble || i.funct is InjectSignDouble || i.funct is MinMaxDouble,
    ensures
        match lower_double(i) {
            Some(code) => c matches Some(v) && v@ == code,
            None => c is None,
        },
{
    let op = match i.funct {
        FloatFunct::AddDouble => vec![Wasm::F64Add],
        FloatFunct::SubtractDouble => vec![Wasm::F64Sub],
        FloatFunct::MultiplyDouble => vec![Wasm::F64Mul],
        FloatFunct::DivideDouble => vec![Wasm::F64Div],
        FloatFunct::InjectSignDouble => match i.rounding_mode {
            RoundingMode::NearestTieToEven => vec![Wasm::F64Copysign],
            RoundingMode::Zero => vec![Wasm::F64Neg, Wasm::F64Copysign],
            RoundingMode::Down => {
                if i.src1 == i.src2 {
                    vec![Wasm::Drop, Wasm::F64Abs]
                } else {
                    return None;
                }
            },
            _ => {
                return None;
            },
        },
        _ => match i.rounding_mode {
            RoundingMode::NearestTieToEven => vec![Wasm::F64Min],
            RoundingMode::Zero => vec![Wasm::F64Max],
            _ => {
                return None;
            },
        },
    };
    let c = cat(vec![Wasm::LocalGet(f_of(i.src1)), Wasm::LocalGet(f_of(i.src2))], op);
    Some(cat(c, vec![Wasm::LocalSet(f_of(i.dest))]))
}

fn single_code(i: Fp) -> (c: Option<Vec<Wasm>>)
    requires
        i.funct is AddSingle || i.funct is SubtractSingle || i.funct is MultiplySingle
            || i.funct is DivideSingle || i.funct is InjectSignSingle || i.funct is MinMaxSingle,
    ensures
        match lower_single(i) {
            Some(code) => c matches Some(v) && v@ == code,
            None => c is None,
        },
{
    let op = match i.funct {
        FloatFunct::AddSingle => vec![Wasm::F32Add],
        FloatFunct::SubtractSingle => vec![Wasm::F32Sub],
        FloatFunct::MultiplySingle => vec![Wasm::F32Mul],
        FloatFunct::DivideSingle => vec![Wasm::F32Div],
        FloatFunct::InjectSignSingle => match i.rounding_mode {
            RoundingMode::NearestTieToEven => vec![Wasm::F32Copysign],
            RoundingMode::Zero => vec![Wasm::F32Neg, Wasm::F32Copysign],
            RoundingMode::Down => {
                if i.src1 == i.src2 {
                    vec![Wasm::Drop, Wasm::F32Abs]
                } else {
                    return None;
                }
            },
            _ => {
                return None;
            },
        },
        _ => match i.rounding_mode {
            RoundingMode::NearestTieToEven => vec![Wasm::F32Min],
            RoundingMode::Zero => vec![Wasm::F32Max],
            _ => {
                return None;
            },
        },
    };
    let c = cat(vec![Wasm::LocalGet(f_of(i.src1))], unbox_code(i.src1));
    let c = cat(c, vec![Wasm::LocalGet(f_of(i.src2))]);
    let c = cat(c, unbox_code(i.src2));
    let c = cat(c, op);
    let c = cat(c, box_code());
    Some(cat(c, vec![Wasm::LocalSet(f_of(i.dest))]))
}

#[verifier::rlimit(40)]
fn fp_code(i: Fp) -> (c: Option<Vec<Wasm>>)
    ensures
        match lower_fp(i) {
            Some(code) => c matches Some(v) && v@ == code,
            None => c is None,
        },
{
    let (dest, src1, src2, rm) = (i.dest, i.src1, i.src2, i.rounding_mode);
    let s2 = src2.index();
    match i.funct {
        FloatFunct::AddDouble | FloatFunct::SubtractDouble | FloatFunct::MultiplyDouble
        | FloatFunct::DivideDouble | FloatFunct::InjectSignDouble | FloatFunct::MinMaxDouble =>
            double_code(i),
        FloatFunct::AddSingle | FloatFunct::SubtractSingle | FloatFunct::MultiplySingle
        | FloatFunct::DivideSingle | FloatFunct::InjectSignSingle | FloatFunct::MinMaxSingle =>
            single_code(i),
        FloatFunct::SquareRootDouble => {
            if s2 != 0 {
                None
            } else {
                Some(vec![Wasm::LocalGet(f_of(src1)), Wasm::F64Sqrt, Wasm::LocalSet(f_of(dest))])
            }
        },
        FloatFunct::SquareRootSingle => None,
        FloatFunct::ConvertFromWordSingle => {
            let conv = if s2 == 0 {
                Wasm::F32ConvertI32S
            } else if s2 == 1 {
                Wasm::F32ConvertI32U
            } else {
                return None;
            };
            let c = cat(read_x_code(src1), vec![conv]);
            let c = cat(c, box_code());
            Some(cat(c, vec![Wasm::LocalSet(f_of(dest))]))
        },
        FloatFunct::ConvertFromWordDouble => {
            let conv = if s2 == 0 {
                Wasm::F64ConvertI32S
            } else if s2 == 1 {
                Wasm::F64ConvertI32U
            } else {
                return None;
            };
            Some(cat(read_x_code(src1), vec![conv, Wasm::LocalSet(f_of(dest))]))
        },
        FloatFunct::MoveFromXSingle => {
            if s2 != 0 {
                return None;
            }
            let c = cat(read_x_code(src1), vec![Wasm::F32ReinterpretI32]);
            let c = cat(c, box_code());
            Some(cat(c, vec![Wasm::LocalSet(f_of(dest))]))
        },
        FloatFunct::CompareDouble => {
            if dest.index() == 0 {
                return Some(Vec::new());
            }
            let op = match rm {
                RoundingMode::NearestTieToEven => Wasm::F64Le,
                RoundingMode::Zero => Wasm::F64Lt,
                RoundingMode::Down => Wasm::F64Eq,
                _ => {
                    return None;
                },
            };
            Some(cat(vec![Wasm::LocalGet(f_of(src1)), Wasm::LocalGet(f_of(src2)), op], set_x_code(dest)))
        },
        FloatFunct::CompareSingle => {
            if dest.index() == 0 {
                return Some(Vec::new());
            }
            let op = match rm {
                RoundingMode::NearestTieToEven => Wasm::F32Le,
                RoundingMode::Zero => Wasm::F32Lt,
                RoundingMode::Down => Wasm::F32Eq,
                _ => {
                    return None;
                },
            };
            let c = cat(vec![Wasm::LocalGet(f_of(src1))], unbox_code(src1));
            let c = cat(c, vec![Wasm::LocalGet(f_of(src2))]);
            let c = cat(c, unbox_code(src2));
            let c = cat(c, vec![op]);
            Some(cat(c, set_x_code(dest)))
        },
        FloatFunct::ConvertToWordDouble => {
            if dest.index() == 0 {
                return Some(Vec::new());
            }
            let conv = if s2 == 0 {
                Wasm::I32TruncSatF64S
            } else if s2 == 1 {
                Wasm::I32TruncSatF64U
            } else {
                return None;
            };
            Some(cat(vec![Wasm::LocalGet(f_of(src1)), conv], set_x_code(dest)))
        },
        FloatFunct::ConvertToWordSingle => {
            if dest.index() == 0 {
                return Some(Vec::new());
            }
            let conv = if s2 == 0 {
                Wasm::I32TruncSatF32S
            } else if s2 == 1 {
                Wasm::I32TruncSatF32U
            } else {
                return None;
            };
            let c = cat(vec![Wasm::LocalGet(f_of(src1))], unbox_code(src1));
            let c = cat(c, vec![conv]);
            Some(cat(c, set_x_code(dest)))
        },
        FloatFunct::MoveToXSingle => {
            if dest.index() == 0 {
                return Some(Vec::new());
            }
            if s2 != 0 || !matches!(rm, RoundingMode::NearestTieToEven) {
                return None;
            }
            let c = cat(vec![Wasm::LocalGet(f_of(src1))], unbox_code(src1));
            let c = cat(c, vec![Wasm::I32ReinterpretF32]);
            Some(cat(c, set_x_code(dest)))
        },
        FloatFunct::ConvertDoubleToSingle => {
            if s2 != 1 {
                return None;
            }
            let c = cat(vec![Wasm::LocalGet(f_of(src1)), Wasm::F32DemoteF64], box_code());
            Some(cat(c, vec![Wasm::LocalSet(f_of(dest))]))
        },
        FloatFunct::ConvertSingleToDouble => {
            if s2 != 0 {
                return None;
            }
            let c = cat(vec![Wasm::LocalGet(f_of(src1))], unbox_code(src1));
            Some(cat(c, vec![Wasm::F64PromoteF32, Wasm::LocalSet(f_of(dest))]))
        },
        FloatFunct::ClassifyDouble => None,
    }
}

fn fused_code(i: Fused) -> (c: Option<Vec<Wasm>>)
    ensures
        match lower_fused(i) {
            Some(code) => c matches Some(v) && v@ == code,
            None => c is None,
        },
{
    match i.width {
        FloatWidth::Double => {
            let negate = matches!(i.type_, FuseType::NegatedMultiplySubtract) || matches!(
                i.type_,
                FuseType::NegatedMultiplyAdd,
            );
            let add = matches!(i.type_, FuseType::MultiplyAdd) || matches!(
                i.type_,
                FuseType::NegatedMultiplySubtract,
            );
            let c = vec![Wasm::LocalGet(f_of(i.src1)), Wasm::LocalGet(f_of(i.src2)), Wasm::F64Mul];
            let c = cat(c, if negate { vec![Wasm::F64Neg] } else { Vec::new() });
            Some(cat(c, vec![
                Wasm::LocalGet(f_of(i.src3)),
                if add { Wasm::F64Add } else { Wasm::F64Sub },
                Wasm::LocalSet(f_of(i.dest)),
            ]))
        },
        FloatWidth::Single => None,
    }
}

fn amo_code(i: Amo) -> (c: Option<Vec<Wasm>>)
    ensures
        match lower_amo(i) {
            Some(code) => c matches Some(v) && v@ == code,
            None => c is None,
        },
{
    let (dest, src1, src2) = (i.dest, i.src1, i.src2);
    let keep = dest.index() != 0;
    match i.funct {
        AmoFunct::LoadReserved => {
            if src2.index() != 0 {
                None
            } else if keep {
                let c = cat(read_x_code(src1), vec![Wasm::I32Load]);
                Some(cat(c, set_x_code(dest)))
            } else {
                Some(Vec::new())
            }
        },
        AmoFunct::StoreConditional => {
            let c = cat(read_x_code(src1), read_x_code(src2));
            let c = cat(c, vec![Wasm::I32Store]);
            Some(cat(c, if keep { cat(vec![Wasm::I32Const(0)], set_x_code(dest)) } else { Vec::new() }))
        },
        AmoFunct::Swap => {
            let c = if keep { cat(read_x_code(src1), vec![Wasm::I32Load]) } else { Vec::new() };
            let c = cat(c, read_x_code(src1));
            let c = cat(c, read_x_code(src2));
            let c = cat(c, vec![Wasm::I32Store]);
            Some(cat(c, if keep { set_x_code(dest) } else { Vec::new() }))
        },
        AmoFunct::Add | AmoFunct::And | AmoFunct::Or | AmoFunct::Xor => {
            let op = match i.funct {
                AmoFunct::Add => Wasm::I32Add,
                AmoFunct::And => Wasm::I32And,
                AmoFunct::Or => Wasm::I32Or,
                _ => Wasm::I32Xor,
            };
            let c = if keep { cat(read_x_code(src1), vec![Wasm::I32Load]) } else { Vec::new() };
            let c = cat(c, read_x_code(src1));
            let c = cat(c, read_x_code(src1));
            let c = cat(c, vec![Wasm::I32Load]);
            let c = cat(c, read_x_code(src2));
            let c = cat(c, vec![op, Wasm::I32Store]);
            Some(cat(c, if keep { set_x_code(dest) } else { Vec::new() }))
        },
        _ => None,
    }
}

/// The WebAssembly code for the instruction `instr` at `pc` inside a
/// block: registers live in locals (see `x_local` and `f_local`), memory
/// is memory 0, and `ebreak` and `ecall` call functions 0 and 1 with every
/// register.  Jumps and branches end blocks and have no code here.
pub fn emit_instruction(pc: u32, instr: Instruction) -> (r: Result<Vec<Wasm>, TranslateError>)
    ensures
        match lower(pc, instr) {
            Ok(code) => r matches Ok(v) && v@ == code,
            Err(e) => r == Err::<Vec<Wasm>, TranslateError>(e),
        },
{
    let done = match instr {
        Instruction::Int(i) => Some(if i.dest.index() == 0 { Vec::new() } else { int_code(i) }),
        Instruction::IntImmediate(i) => Some(
            if i.dest.index() == 0 {
                Vec::new()
            } else {
                int_immediate_code(i)
            },
        ),
        Instruction::U(i) => {
            if i.dest.index() == 0 {
                Some(Vec::new())
            } else {
                let imm = u32::from(i.imm) << 12;
                proof {
                    let v = i.imm@;
                    assert(v < 0x100000 ==> v << 12 == v * 0x1000) by (bit_vector);
                }
                let v = match i.type_ {
                    UType::AddUpperImmediateToPc => pc.wrapping_add(imm),
                    UType::LoadUpperImmediate => imm,
                };
                Some(cat(vec![Wasm::I32Const(v as i32)], set_x_code(i.dest)))
            }
        },
        Instruction::LoadInt(i) => {
            if i.dest.index() == 0 {
                Some(Vec::new())
            } else {
                let op = match i.width {
                    LoadWidth::Byte => Wasm::I32Load8S,
                    LoadWidth::ByteUnsigned => Wasm::I32Load8U,
                    LoadWidth::Half => Wasm::I32Load16S,
                    LoadWidth::HalfUnsigned => Wasm::I32Load16U,
                    LoadWidth::Word => Wasm::I32Load,
                };
                let c = cat(address_code(i.base, i.offset), vec![op]);
                Some(cat(c, set_x_code(i.dest)))
            }
        },
        Instruction::StoreInt(i) => {
            let op = match i.width {
                StoreWidth::Byte => Wasm::I32Store8,
                StoreWidth::Half => Wasm::I32Store16,
                StoreWidth::Word => Wasm::I32Store,
            };
            let c = cat(address_code(i.base, i.offset), read_x_code(i.src));
            Some(cat(c, vec![op]))
        },
        Instruction::Fence => Some(Vec::new()),
        Instruction::System(sys) => {
            let call = match sys {
                System::Ebreak => Wasm::Call(0),
                System::Ecall => Wasm::Call(1),
                System::Csr(_) => Wasm::Unreachable,
            };
            let c = cat(get_all_code(), vec![call]);
            Some(cat(c, set_all_code()))
        },
        Instruction::LoadFp(i) => {
            let load = match i.width {
                FpWidth::Double => vec![Wasm::F64Load],
                FpWidth::Word => vec![
                    Wasm::I32Load,
                    Wasm::I64ExtendI32U,
                    Wasm::I64Const(0xffff_ffff_0000_0000u64 as i64),
                    Wasm::I64Or,
                    Wasm::F64ReinterpretI64,
                ],
            };
            let c = cat(address_code(i.base, i.offset), load);
            Some(cat(c, vec![Wasm::LocalSet(f_of(i.dest))]))
        },
        Instruction::StoreFp(i) => {
            let c = cat(address_code(i.base, i.offset), vec![Wasm::LocalGet(f_of(i.src))]);
            let store = match i.width {
                FpWidth::Double => vec![Wasm::F64Store],
                FpWidth::Word => cat(unbox_code(i.src), vec![Wasm::F32Store]),
            };
            Some(cat(c, store))
        },
        Instruction::Fp(i) => fp_code(i),
        Instruction::Fused(i) => fused_code(i),
        Instruction::Amo(i) => amo_code(i),
        _ => None,
    };
    match done {
        Some(c) => Ok(c),
        None => Err(TranslateError::Unsupported(pc)),
    }
}

/// The 32 bits that `i32.const c` pushes.
pub open spec fn i32_bits(c: i32) -> u32 {
    ((c as int) % 0x1_0000_0000) as u32
}

/// The 32 bits `a` read as a two's complement number, as WebAssembly's
/// signed operations read them.
pub open spec fn i32_signed(a: u32) -> int {
    if a < 0x8000_0000 {
        a as int
    } else {
        a - 0x1_0000_0000
    }
}

/// What a WebAssembly `i32` binary operation computes from its operands
/// `a` (pushed first) and `b`, by the WebAssembly specification: arithmetic
/// wraps around 2^32, shift amounts are taken modulo 32, comparisons give 1
/// or 0.
pub open spec fn i32_binop(w: Wasm, a: u32, b: u32) -> Option<u32> {
    match w {
        Wasm::I32Add => Some(((a + b) % 0x1_0000_0000) as u32),
        Wasm::I32Sub => Some(((a - b) % 0x1_0000_0000) as u32),
        Wasm::I32Mul => Some(((a * b) % 0x1_0000_0000) as u32),
        Wasm::I32And => Some(a & b),
        Wasm::I32Or => Some(a | b),
        Wasm::I32Xor => Some(a ^ b),
        Wasm::I32Shl => Some(a << (b % 32)),
        Wasm::I32ShrU => Some(a >> (b % 32)),
        Wasm::I32ShrS => Some(((a as i32) >> (b % 32)) as u32),
        Wasm::I32LtS => Some(if i32_signed(a) < i32_signed(b) { 1 } else { 0 }),
        Wasm::I32LtU => Some(if a < b { 1 } else { 0 }),
        Wasm::I32GeS => Some(if i32_signed(a) >= i32_signed(b) { 1 } else { 0 }),
        Wasm::I32GeU => Some(if a >= b { 1 } else { 0 }),
        Wasm::I32Eq => Some(if a == b { 1 } else { 0 }),
        Wasm::I32Ne => Some(if a != b { 1 } else { 0 }),
        _ => None,
    }
}

/// Running straight-line `i32` code on the locals `locals` with the
/// operand stack `stack`: the locals and stack after it, or none where the
/// code goes outside this fragment (or the stack runs dry).
pub open spec fn run_i32(code: Seq<Wasm>, locals: Seq<u32>, stack: Seq<u32>) -> Option<(Seq<u32>, Seq<u32>)>
    decreases code.len(),
{
    if code.len() == 0 {
        Some((locals, stack))
    } else {
        let next = match code[0] {
            Wasm::I32Const(c) => Some((locals, stack.push(i32_bits(c)))),
            Wasm::LocalGet(l) => if l < locals.len() {
                Some((locals, stack.push(locals[l as int])))
            } else {
                None
            },
            Wasm::LocalSet(l) => if l < locals.len() && stack.len() >= 1 {
                Some((locals.update(l as int, stack.last()), stack.drop_last()))
            } else {
                None
            },
            w => if stack.len() >= 2 {
                match i32_binop(w, stack[stack.len() - 2], stack.last()) {
                    Some(v) => Some((locals, stack.drop_last().drop_last().push(v))),
                    None => None,
                }
            } else {
                None
            },
        };
        match next {
            Some((l, st)) => run_i32(code.drop_first(), l, st),
            None => None,
        }
    }
}

/// Whether `locals` hold the integer registers `x` (x1 to x31 in locals 0
/// to 30; x0 is zero).
pub open spec fn holds_x(locals: Seq<u32>, x: Seq<u32>) -> bool {
    &&& x.len() == 32
    &&& x[0] == 0
    &&& locals.len() == 63
    &&& forall|k: int| 1 <= k < 32 ==> locals[k - 1] == #[trigger] x[k]
}

proof fn lemma_read_x(r: Register, locals: Seq<u32>, x: Seq<u32>, stack: Seq<u32>, rest: Seq<Wasm>)
    requires
        holds_x(locals, x),
        r@ < 32,
    ensures
        run_i32(read_x(r) + rest, locals, stack) == run_i32(rest, locals, stack.push(x[r@ as int])),
{
    assert((read_x(r) + rest).drop_first() =~= rest);
    if r@ != 0 {
        assert(locals[r@ - 1] == x[r@ as int]);
    }
}

/// The code for a register-immediate instruction computes what the
/// interpreter computes: run on locals that hold the registers, it leaves
/// the interpreter's value in the destination's local (shift amounts below
/// 32, as decoding gives them).
pub proof fn law_lower_int_immediate(pc: u32, i: IntImmediate, locals: Seq<u32>, x: Seq<u32>)
    requires
        holds_x(locals, x),
        0 < i.dest@ < 32,
        i.src@ < 32,
        i.funct matches IntImmediateFunct::ImmShift(_, n) ==> n@ < 32,
    ensures
        lower(pc, Instruction::IntImmediate(i)) matches Ok(code) && run_i32(code, locals, Seq::empty())
            == Some((locals.update(i.dest@ - 1, spec_immediate_op(i.funct, x[i.src@ as int])), Seq::<u32>::empty())),
{
    let code = lower_int_immediate(i);
    let v = x[i.src@ as int];
    let (c, op) = match i.funct {
        IntImmediateFunct::Imm12(f, imm) => (imm@ as i32, match f {
            Imm12::Add => Wasm::I32Add,
            Imm12::SetLessThan => Wasm::I32LtS,
            Imm12::SetLessThanUnsigned => Wasm::I32LtU,
            Imm12::Xor => Wasm::I32Xor,
            Imm12::Or => Wasm::I32Or,
            Imm12::And => Wasm::I32And,
        }),
        IntImmediateFunct::ImmShift(f, amount) => (amount@ as i32, match f {
            ImmShift::ShiftLeft => Wasm::I32Shl,
            ImmShift::ShiftRightLogical => Wasm::I32ShrU,
            ImmShift::ShiftRightArithmetic => Wasm::I32ShrS,
        }),
    };
    let tail = seq![Wasm::I32Const(c), op] + set_x(i.dest);
    assert(code =~= read_x(i.src) + tail);
    lemma_read_x(i.src, locals, x, Seq::empty(), tail);
    let b = i32_bits(c);
    let st = Seq::<u32>::empty().push(v).push(b);
    assert(tail.drop_first() =~= seq![op] + set_x(i.dest));
    assert((seq![op] + set_x(i.dest)).drop_first() =~= set_x(i.dest));
    assert(st[st.len() - 2] == v && st.last() == b);
    assert(st.drop_last().drop_last().push(i32_binop(op, v, b)->Some_0) =~= seq![i32_binop(op, v, b)->Some_0]);
    assert(set_x(i.dest).drop_first() =~= Seq::<Wasm>::empty());
    assert(seq![i32_binop(op, v, b)->Some_0].drop_last() =~= Seq::<u32>::empty());
    match i.funct {
        IntImmediateFunct::Imm12(f, imm) => {
            let n = imm@ as int;
            assert(c as int == n);
            vstd::arithmetic::div_mod::lemma_add_mod_noop(v as int, n, 0x1_0000_0000);
            assert((v as int) % 0x1_0000_0000 == v);
            assert(i32_signed(b) == n);
        },
        IntImmediateFunct::ImmShift(f, amount) => {
            assert(b == amount@ as u32);
            assert(b % 32 == b);
        },
    }
    let r = spec_immediate_op(i.funct, v);
    assert(i32_binop(op, v, b) == Some(r));
    let after = Some((locals.update(i.dest@ - 1, r), Seq::<u32>::empty()));
    assert(run_i32(set_x(i.dest), locals, seq![r]) == after) by {
        assert(seq![r].last() == r);
        assert(run_i32(Seq::<Wasm>::empty(), locals.update(i.dest@ - 1, r), Seq::<u32>::empty()) == after);
    }
    assert(run_i32(seq![op] + set_x(i.dest), locals, st) == run_i32(set_x(i.dest), locals, seq![r]));
    assert(run_i32(tail, locals, Seq::<u32>::empty().push(v)) == run_i32(seq![op] + set_x(i.dest), locals, st));
}

/// The code for a register-register operation that WebAssembly has as one
/// instruction (add, sub, mul, the comparisons, the logic operations, and
/// shifts by less than 32) computes what the interpreter computes.
pub proof fn law_lower_int(pc: u32, i: Int, locals: Seq<u32>, x: Seq<u32>)
    requires
        holds_x(locals, x),
        0 < i.dest@ < 32,
        i.src1@ < 32,
        i.src2@ < 32,
        i.funct is Add || i.funct is Subtract || i.funct is Multiply || i.funct is Xor || i.funct is Or
            || i.funct is And || i.funct is SetLessThan || i.funct is SetLessThanUnsigned
            || ((i.funct is ShiftLeft || i.funct is ShiftRight || i.funct is ShiftRightArithmetic) && x[i.src2@ as int] < 32),
    ensures
        lower(pc, Instruction::Int(i)) matches Ok(code) && run_i32(code, locals, Seq::empty()) == Some(
            (locals.update(i.dest@ - 1, spec_integer_op(i.funct, x[i.src1@ as int], x[i.src2@ as int])->Ok_0), Seq::<u32>::empty()),
        ),
{
    let v1 = x[i.src1@ as int];
    let v2 = x[i.src2@ as int];
    let op = int_op(i.funct);
    let tail = seq![op] + set_x(i.dest);
    assert(lower_int(i) =~= read_x(i.src1) + (read_x(i.src2) + tail));
    lemma_read_x(i.src1, locals, x, Seq::empty(), read_x(i.src2) + tail);
    lemma_read_x(i.src2, locals, x, Seq::empty().push(v1), tail);
    let st = Seq::<u32>::empty().push(v1).push(v2);
    assert(st[st.len() - 2] == v1 && st.last() == v2);
    assert(tail.drop_first() =~= set_x(i.dest));
    assert(st.drop_last().drop_last().push(i32_binop(op, v1, v2)->Some_0) =~= seq![i32_binop(op, v1, v2)->Some_0]);
    assert(set_x(i.dest).drop_first() =~= Seq::<Wasm>::empty());
    assert(seq![i32_binop(op, v1, v2)->Some_0].drop_last() =~= Seq::<u32>::empty());
    if i.funct is ShiftLeft || i.funct is ShiftRight || i.funct is ShiftRightArithmetic {
        assert(v2 % 32 == v2);
    }
    let r = spec_integer_op(i.funct, v1, v2)->Ok_0;
    assert(i32_binop(op, v1, v2) == Some(r));
    let after = Some((locals.update(i.dest@ - 1, r), Seq::<u32>::empty()));
    assert(run_i32(set_x(i.dest), locals, seq![r]) == after) by {
        assert(seq![r].last() == r);
        assert(run_i32(Seq::<Wasm>::empty(), locals.update(i.dest@ - 1, r), Seq::<u32>::empty()) == after);
    }
    assert(run_i32(tail, locals, st) == run_i32(set_x(i.dest), locals, seq![r]));
    assert(Seq::<u32>::empty().push(v1).push(v2) == st);
}

/// The WebAssembly comparison that a translated branch tests gives 1
/// exactly when the interpreter takes the branch.
pub proof fn law_branch_op(t: crate::instr::BranchType, a: u32, b: u32)
    ensures
        i32_binop(branch_op(t), a, b) == Some(if branch_taken(t, a, b) { 1u32 } else { 0u32 }),
{
}

/// Floating-point comparisons translate by the rounding field as RISC-V
/// defines them: 0 is `fle` (`le`), 1 is `flt` (`lt`), 2 is `feq` (`eq`),
/// for doubles and singles; the result goes to the destination register.
pub proof fn law_lower_float_compare(pc: u32, i: Fp)
    requires
        i.funct is CompareDouble || i.funct is CompareSingle,
        0 < i.dest@ < 32,
    ensures
        ({
            let d = i.funct is CompareDouble;
            let ends = |op: Wasm| lower(pc, Instruction::Fp(i)) matches Ok(code) && code.len() >= 2
                && code[code.len() - 2] == op && code[code.len() - 1] == Wasm::LocalSet((i.dest@ - 1) as u32);
            &&& i.rounding_mode is NearestTieToEven ==> ends(if d { Wasm::F64Le } else { Wasm::F32Le })
            &&& i.rounding_mode is Zero ==> ends(if d { Wasm::F64Lt } else { Wasm::F32Lt })
            &&& i.rounding_mode is Down ==> ends(if d { Wasm::F64Eq } else { Wasm::F32Eq })
            &&& !(i.rounding_mode is NearestTieToEven || i.rounding_mode is Zero || i.rounding_mode is Down)
                ==> lower(pc, Instruction::Fp(i)) is Err
        }),
{
}

/// The address that translated loads and stores compute is the
/// interpreter's: the base register plus the sign-extended offset,
/// wrapping around 2^32.
pub proof fn law_lower_address(base: Register, offset: crate::instr::I12, locals: Seq<u32>, x: Seq<u32>)
    requires
        holds_x(locals, x),
        base@ < 32,
    ensures
        run_i32(address(base, offset), locals, Seq::empty()) == Some(
            (locals, seq![((x[base@ as int] + offset@) % 0x1_0000_0000) as u32]),
        ),
{
    let v = x[base@ as int];
    let tail = seq![Wasm::I32Const(offset@ as i32), Wasm::I32Add];
    assert(address(base, offset) =~= read_x(base) + tail);
    lemma_read_x(base, locals, x, Seq::empty(), tail);
    let b = i32_bits(offset@ as i32);
    let st = Seq::<u32>::empty().push(v).push(b);
    vstd::arithmetic::div_mod::lemma_add_mod_noop(v as int, offset@ as int, 0x1_0000_0000);
    assert((v as int) % 0x1_0000_0000 == v);
    let r = ((v + offset@) % 0x1_0000_0000) as u32;
    assert(i32_binop(Wasm::I32Add, v, b) == Some(r));
    assert(st[st.len() - 2] == v && st.last() == b);
    assert(st.drop_last().drop_last().push(r) =~= seq![r]);
    assert(run_i32(seq![Wasm::I32Add], locals, st) == Some((locals, seq![r]))) by {
        assert(seq![Wasm::I32Add].drop_first() =~= Seq::<Wasm>::empty());
        reveal_with_fuel(run_i32, 2);
    }
    assert(tail.drop_first() =~= seq![Wasm::I32Add]);
    assert(run_i32(tail, locals, Seq::<u32>::empty().push(v)) == run_i32(seq![Wasm::I32Add], locals, st));
}

/// Translated integer loads and stores use the WebAssembly access of the
/// same width and extension: `lb` `i32.load8_s`, `lbu` `i32.load8_u`, `lh`
/// `i32.load16_s`, `lhu` `i32.load16_u`, `lw` `i32.load`, then the
/// destination is set; `sb` `i32.store8`, `sh` `i32.store16`, `sw`
/// `i32.store`.
pub proof fn law_lower_memory_widths(pc: u32, l: LoadInt, st: StoreInt)
    requires
        0 < l.dest@ < 32,
    ensures
        ({
            let lc = lower(pc, Instruction::LoadInt(l))->Ok_0;
            let sc = lower(pc, Instruction::StoreInt(st))->Ok_0;
            let op = lc[lc.len() - 2];
            &&& lower(pc, Instruction::LoadInt(l)) is Ok && lc.len() >= 2
            &&& lc.last() == Wasm::LocalSet((l.dest@ - 1) as u32)
            &&& l.width == LoadWidth::Byte ==> op == Wasm::I32Load8S
            &&& l.width == LoadWidth::ByteUnsigned ==> op == Wasm::I32Load8U
            &&& l.width == LoadWidth::Half ==> op == Wasm::I32Load16S
            &&& l.width == LoadWidth::HalfUnsigned ==> op == Wasm::I32Load16U
            &&& l.width == LoadWidth::Word ==> op == Wasm::I32Load
            &&& lower(pc, Instruction::StoreInt(st)) is Ok && sc.len() >= 1
            &&& st.width == StoreWidth::Byte ==> sc.last() == Wasm::I32Store8
            &&& st.width == StoreWidth::Half ==> sc.last() == Wasm::I32Store16
            &&& st.width == StoreWidth::Word ==> sc.last() == Wasm::I32Store
        }),
{
}

} // verus!
