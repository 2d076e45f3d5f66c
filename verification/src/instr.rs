use vstd::prelude::*;

mod data;

pub use data::{
    DecodeError, Register, LoadWidth, StoreWidth, FpWidth, U5, I12, U20, I20, sign_extend, Imm12,
    ImmShift, IntImmediateFunct, IntegerFunct, BranchType, FloatFunct, RoundingMode, CsrFunct,
    AmoFunct,
};

verus! {

broadcast use {
    Register::lemma_from_index,
    Register::lemma_view_injective,
    U5::lemma_from_value,
    I12::lemma_from_value,
    I12::lemma_view_injective,
    U20::lemma_from_value,
    I20::lemma_from_value,
};

pub const LOAD: u32 = 0b0000011;
pub const FENCE: u32 = 0b0001111;
pub const OP_IMM: u32 = 0b0010011;
pub const AUIPC: u32 = 0b0010111;
pub const STORE: u32 = 0b0100011;
pub const OP: u32 = 0b0110011;
pub const LUI: u32 = 0b0110111;
pub const BRANCH: u32 = 0b1100011;
pub const JAL: u32 = 0b1101111;
pub const JALR: u32 = 0b1100111;
pub const SYSTEM: u32 = 0b1110011;
pub const LOAD_FP: u32 = 0b0000111;
pub const STORE_FP: u32 = 0b0100111;
pub const OP_FP: u32 = 0b1010011;
pub const MADD: u32 = 0b1000011;
pub const MSUB: u32 = 0b1000111;
pub const NMSUB: u32 = 0b1001011;
pub const NMADD: u32 = 0b1001111;
pub const AMO: u32 = 0b0101111;
pub const OPCODE_MASK: u32 = 0b1111111;

#[derive(Debug, Clone, Copy, PartialEq, Eq, Structural)]
pub struct LoadInt {
    pub dest: Register,
    pub width: LoadWidth,
    pub base: Register,
    pub offset: I12,
}

#[derive(Debug, Clone, Copy, PartialEq, Eq, Structural)]
pub struct IntImmediate {
    pub dest: Register,
    pub funct: IntImmediateFunct,
    pub src: Register,
}

#[derive(Debug, Clone, Copy, PartialEq, Eq, Structural)]
pub enum UType {
    AddUpperImmediateToPc,
    LoadUpperImmediate,
}

#[derive(Debug, Clone, Copy, PartialEq, Eq, Structural)]
pub struct U {
    pub type_: UType,
    pub dest: Register,
    pub imm: U20,
}

#[derive(Debug, Clone, Copy, PartialEq, Eq, Structural)]
pub struct StoreInt {
    pub offset: I12,
    pub width: StoreWidth,
    pub base: Register,
    pub src: Register,
}

#[derive(Debug, Clone, Copy, PartialEq, Eq, Structural)]
pub struct Int {
    pub dest: Register,
    pub funct: IntegerFunct,
    pub src1: Register,
    pub src2: Register,
}

#[derive(Debug, Clone, Copy, PartialEq, Eq, Structural)]
pub struct Branch {
    pub offset: I12,
    pub funct: BranchType,
    pub src1: Register,
    pub src2: Register,
}

#[derive(Debug, Clone, Copy, PartialEq, Eq, Structural)]
pub struct JumpAndLink {
    pub dest: Register,
    pub offset: I20,
}

#[derive(Debug, Clone, Copy, PartialEq, Eq, Structural)]
pub struct JumpAndLinkRegister {
    pub dest: Register,
    pub base: Register,
    pub offset: I12,
}

#[derive(Debug, Clone, Copy, PartialEq, Eq, Structural)]
pub struct Csr {
    pub dest: Register,
    pub funct: CsrFunct,
    pub src: Register,
    pub csr: I12,
}

#[derive(Debug, Clone, Copy, PartialEq, Eq, Structural)]
pub enum System {
    Ecall,
    Ebreak,
    Csr(Csr),
}

#[derive(Debug, Clone, Copy, PartialEq, Eq, Structural)]
pub struct LoadFp {
    pub dest: Register,
    pub width: FpWidth,
    pub base: Register,
    pub offset: I12,
}

#[derive(Debug, Clone, Copy, PartialEq, Eq, Structural)]
pub struct StoreFp {
    pub offset: I12,
    pub width: FpWidth,
    pub base: Register,
    pub src: Register,
}

#[derive(Debug, Clone, Copy, PartialEq, Eq, Structural)]
pub enum FuseType {
    MultiplyAdd,
    MultiplySubtract,
    NegatedMultiplySubtract,
    NegatedMultiplyAdd,
}

#[derive(Debug, Clone, Copy, PartialEq, Eq, Structural)]
pub enum FloatWidth {
    Single,
    Double,
}

#[derive(Debug, Clone, Copy, PartialEq, Eq, Structural)]
pub struct Fused {
    pub type_: FuseType,
    pub width: FloatWidth,
    pub rounding_mode: RoundingMode,
    pub dest: Register,
    pub src1: Register,
    pub src2: Register,
    pub src3: Register,
}

#[derive(Debug, Clone, Copy, PartialEq, Eq, Structural)]
pub struct Fp {
    /// Some operations restrict this field (see `FloatFunct`).
    pub rounding_mode: RoundingMode,
    pub funct: FloatFunct,
    pub dest: Register,
    /// Some operations restrict this field (see `FloatFunct`).
    pub src1: Register,
    /// Some operations restrict this field (see `FloatFunct`).
    pub src2: Register,
}

#[derive(Debug, Clone, Copy, PartialEq, Eq, Structural)]
pub struct Amo {
    pub dest: Register,
    pub src1: Register,
    /// Always x0 for load-reserved.
    pub src2: Register,
    pub release: bool,
    pub acquire: bool,
    pub funct: AmoFunct,
}

#[derive(Debug, Clone, Copy, PartialEq, Eq, Structural)]
pub enum Instruction {
    LoadInt(LoadInt),
    Fence,
    IntImmediate(IntImmediate),
    U(U),
    StoreInt(StoreInt),
    Int(Int),
    Branch(Branch),
    JumpAndLink(JumpAndLink),
    JumpAndLinkRegister(JumpAndLinkRegister),
    System(System),
    LoadFp(LoadFp),
    StoreFp(StoreFp),
    Fp(Fp),
    Fused(Fused),
    Amo(Amo),
}

// Fields of a 32-bit instruction word, named as in the RISC-V manual.
pub open spec fn opcode(v: u32) -> u32 {
    v & 0x7f
}

pub open spec fn rd(v: u32) -> u32 {
    (v >> 7) & 0x1f
}

pub open spec fn funct3(v: u32) -> u32 {
    (v >> 12) & 0x7
}

pub open spec fn rs1(v: u32) -> u32 {
    (v >> 15) & 0x1f
}

pub open spec fn rs2(v: u32) -> u32 {
    (v >> 20) & 0x1f
}

pub open spec fn rs3(v: u32) -> u32 {
    v >> 27
}

pub open spec fn funct7(v: u32) -> u32 {
    v >> 25
}

/// The raw 12 bits of an I-type immediate.
pub open spec fn i_imm(v: u32) -> u32 {
    v >> 20
}

/// The raw 12 bits of an S-type immediate: imm[11:5] = v[31:25], imm[4:0] = v[11:7].
pub open spec fn s_imm(v: u32) -> u32 {
    ((v >> 25) << 5) | ((v >> 7) & 0x1f)
}

/// The raw 20 bits of a J-type offset, in half-words: offset[20] = v[31],
/// offset[10:1] = v[30:21], offset[11] = v[20], offset[19:12] = v[19:12].
pub open spec fn j_imm(v: u32) -> u32 {
    ((v >> 31) << 19) | (((v >> 12) & 0xff) << 11) | (((v >> 20) & 1) << 10) | ((v >> 21)
        & 0x3ff)
}

pub open spec fn reg(i: u32) -> Register {
    Register::from_index(i)
}

pub open spec fn imm12(raw: u32) -> I12 {
    I12::from_value(sign_extend(raw as int, 12))
}

/// What a 32-bit instruction word means, or why it is refused.  (Branch
/// offsets are read from the S-type immediate position.)
pub open spec fn spec_decode(v: u32) -> Result<Instruction, DecodeError> {
    let op = opcode(v);
    if op == LOAD {
        match LoadWidth::spec_new(funct3(v)) {
            Ok(width) => Ok(
                Instruction::LoadInt(
                    LoadInt {
                        dest: reg(rd(v)),
                        width,
                        base: reg(rs1(v)),
                        offset: imm12(i_imm(v)),
                    },
                ),
            ),
            Err(e) => Err(e),
        }
    } else if op == FENCE {
        Ok(Instruction::Fence)
    } else if op == OP_IMM {
        match IntImmediateFunct::spec_new(funct3(v), imm12(i_imm(v))) {
            Ok(funct) => Ok(
                Instruction::IntImmediate(IntImmediate { dest: reg(rd(v)), funct, src: reg(rs1(v)) }),
            ),
            Err(e) => Err(e),
        }
    } else if op == AUIPC || op == LUI {
        Ok(
            Instruction::U(
                U {
                    type_: if op == AUIPC {
                        UType::AddUpperImmediateToPc
                    } else {
                        UType::LoadUpperImmediate
                    },
                    dest: reg(rd(v)),
                    imm: U20::from_value(v >> 12),
                },
            ),
        )
    } else if op == STORE {
        match StoreWidth::spec_new(funct3(v)) {
            Ok(width) => Ok(
                Instruction::StoreInt(
                    StoreInt {
                        offset: imm12(s_imm(v)),
                        width,
                        base: reg(rs1(v)),
                        src: reg(rs2(v)),
                    },
                ),
            ),
            Err(e) => Err(e),
        }
    } else if op == OP {
        match IntegerFunct::spec_new(funct3(v) | (funct7(v) << 3)) {
            Ok(funct) => Ok(
                Instruction::Int(
                    Int { dest: reg(rd(v)), funct, src1: reg(rs1(v)), src2: reg(rs2(v)) },
                ),
            ),
            Err(e) => Err(e),
        }
    } else if op == BRANCH {
        match BranchType::spec_new(funct3(v)) {
            Ok(funct) => Ok(
                Instruction::Branch(
                    Branch {
                        offset: imm12(s_imm(v)),
                        funct,
                        src1: reg(rs1(v)),
                        src2: reg(rs2(v)),
                    },
                ),
            ),
            Err(e) => Err(e),
        }
    } else if op == JAL {
        Ok(
            Instruction::JumpAndLink(
                JumpAndLink {
                    dest: reg(rd(v)),
                    offset: I20::from_value(2 * sign_extend(j_imm(v) as int, 20)),
                },
            ),
        )
    } else if op == JALR && funct3(v) == 0 {
        Ok(
            Instruction::JumpAndLinkRegister(
                JumpAndLinkRegister {
                    dest: reg(rd(v)),
                    base: reg(rs1(v)),
                    offset: imm12(i_imm(v)),
                },
            ),
        )
    } else if op == SYSTEM {
        if v >> 7 == 0 {
            Ok(Instruction::System(System::Ecall))
        } else if v >> 7 == 0b10000000000000 {
            Ok(Instruction::System(System::Ebreak))
        } else {
            match CsrFunct::spec_new(funct3(v)) {
                Ok(funct) => Ok(
                    Instruction::System(
                        System::Csr(
                            Csr {
                                dest: reg(rd(v)),
                                funct,
                                src: reg(rs1(v)),
                                csr: imm12(i_imm(v)),
                            },
                        ),
                    ),
                ),
                Err(_) => Err(DecodeError::UnknownSystem),
            }
        }
    } else if op == LOAD_FP {
        match FpWidth::spec_new(funct3(v)) {
            Ok(width) => Ok(
                Instruction::LoadFp(
                    LoadFp {
                        dest: reg(rd(v)),
                        width,
                        base: reg(rs1(v)),
                        offset: imm12(i_imm(v)),
                    },
                ),
            ),
            Err(e) => Err(e),
        }
    } else if op == STORE_FP {
        match FpWidth::spec_new(funct3(v)) {
            Ok(width) => Ok(
                Instruction::StoreFp(
                    StoreFp {
                        offset: imm12(s_imm(v)),
                        width,
                        base: reg(rs1(v)),
                        src: reg(rs2(v)),
                    },
                ),
            ),
            Err(e) => Err(e),
        }
    } else if op == OP_FP {
        match FloatFunct::spec_new(funct7(v)) {
            Ok(funct) => match RoundingMode::spec_new(funct3(v)) {
                Ok(rounding_mode) => Ok(
                    Instruction::Fp(
                        Fp {
                            rounding_mode,
                            funct,
                            dest: reg(rd(v)),
                            src1: reg(rs1(v)),
                            src2: reg(rs2(v)),
                        },
                    ),
                ),
                Err(e) => Err(e),
            },
            Err(e) => Err(e),
        }
    } else if op == MADD || op == MSUB || op == NMSUB || op == NMADD {
        let fmt = funct7(v) & 3;
        if fmt > 1 {
            Err(DecodeError::UnknownFloatWidth)
        } else {
            match RoundingMode::spec_new(funct3(v)) {
                Ok(rounding_mode) => Ok(
                    Instruction::Fused(
                        Fused {
                            type_: if op == MADD {
                                FuseType::MultiplyAdd
                            } else if op == MSUB {
                                FuseType::MultiplySubtract
                            } else if op == NMSUB {
                                FuseType::NegatedMultiplySubtract
                            } else {
                                FuseType::NegatedMultiplyAdd
                            },
                            width: if fmt == 0 {
                                FloatWidth::Single
                            } else {
                                FloatWidth::Double
                            },
                            rounding_mode,
                            dest: reg(rd(v)),
                            src1: reg(rs1(v)),
                            src2: reg(rs2(v)),
                            src3: reg(rs3(v)),
                        },
                    ),
                ),
                Err(e) => Err(e),
            }
        }
    } else if op == AMO {
        match AmoFunct::spec_new(v >> 27) {
            Ok(funct) => Ok(
                Instruction::Amo(
                    Amo {
                        dest: reg(rd(v)),
                        src1: reg(rs1(v)),
                        src2: reg(rs2(v)),
                        release: (v >> 25) & 1 == 1,
                        acquire: (v >> 26) & 1 == 1,
                        funct,
                    },
                ),
            ),
            Err(e) => Err(e),
        }
    } else {
        Err(DecodeError::UnknownOpcode)
    }
}

proof fn lemma_word_fields(v: u32)
    by (bit_vector)
    ensures
        v & 0x7f < 128,
        (v >> 7) & 0x1f < 32,
        (v >> 12) & 0x7 < 8,
        (v >> 15) & 0x1f < 32,
        (v >> 20) & 0x1f < 32,
        v >> 27 < 32,
        v >> 25 < 128,
        v >> 20 < 0x1000,
        v >> 12 < 0x100000,
        (((v >> 7) & 0b11111) | ((v >> 20) & 0b111111100000)) == s_imm(v),
        s_imm(v) < 0x1000,
        ((v >> 12) & 0b111) | ((v >> 22) & 0b1111111000) == funct3(v) | (funct7(v) << 3),
        ((((v >> 12) & 0xff) << 11) | (((v >> 12) & 0x100) << 2) | (((v >> 12) & 0x7fe00) >> 9)
            | ((v >> 12) & 0x80000)) == j_imm(v),
        j_imm(v) < 0x100000,
        (v >> 25) & 0b11 == funct7(v) & 3,
        (v & (1u32 << 25) != 0) == ((v >> 25) & 1 == 1),
        (v & (1u32 << 26) != 0) == ((v >> 26) & 1 == 1),
        (v & (0b111u32 << 12) == 0) == (funct3(v) == 0),
{
}

impl Instruction {
    /// Whether an instruction whose first byte is `next` is a 16-bit
    /// (compressed) one: its two low bits are not both set.
    pub fn next_is_compressed(next: u8) -> (r: bool)
        ensures
            r == (next & 0b11 != 0b11),
    {
        next & 0b11 != 0b11
    }

    /// Decodes a 32-bit instruction word.
    #[verifier::rlimit(40)]
    pub fn decode(v: u32) -> (r: Result<Instruction, DecodeError>)
        ensures
            r == spec_decode(v),
    {
        proof {
            lemma_word_fields(v);
        }
        let op = v & OPCODE_MASK;
        if op == LOAD {
            Ok(
                Instruction::LoadInt(
                    LoadInt {
                        dest: Register::new((v >> 7) & 0b11111)?,
                        width: LoadWidth::new((v >> 12) & 0b111)?,
                        base: Register::new((v >> 15) & 0b11111)?,
                        offset: I12::new(v >> 20)?,
                    },
                ),
            )
        } else if op == FENCE {
            Ok(Instruction::Fence)
        } else if op == OP_IMM {
            Ok(
                Instruction::IntImmediate(
                    IntImmediate {
                        dest: Register::new((v >> 7) & 0b11111)?,
                        funct: IntImmediateFunct::new((v >> 12) & 0b111, I12::new(v >> 20)?)?,
                        src: Register::new((v >> 15) & 0b11111)?,
                    },
                ),
            )
        } else if op == AUIPC || op == LUI {
            Ok(
                Instruction::U(
                    U {
                        type_: if op == AUIPC {
                            UType::AddUpperImmediateToPc
                        } else {
                            UType::LoadUpperImmediate
                        },
                        dest: Register::new((v >> 7) & 0b11111)?,
                        imm: U20::new(v >> 12)?,
                    },
                ),
            )
        } else if op == STORE {
            Ok(
                Instruction::StoreInt(
                    StoreInt {
                        offset: I12::new(((v >> 7) & 0b11111) | ((v >> 20) & 0b111111100000))?,
                        width: StoreWidth::new((v >> 12) & 0b111)?,
                        base: Register::new((v >> 15) & 0b11111)?,
                        src: Register::new((v >> 20) & 0b11111)?,
                    },
                ),
            )
        } else if op == OP {
            Ok(
                Instruction::Int(
                    Int {
                        dest: Register::new((v >> 7) & 0b11111)?,
                        funct: IntegerFunct::new(((v >> 12) & 0b111) | ((v >> 22) & 0b1111111000))?,
                        src1: Register::new((v >> 15) & 0b11111)?,
                        src2: Register::new((v >> 20) & 0b11111)?,
                    },
                ),
            )
        } else if op == BRANCH {
            Ok(
                Instruction::Branch(
                    Branch {
                        offset: I12::new(((v >> 7) & 0b11111) | ((v >> 20) & 0b111111100000))?,
                        funct: BranchType::new((v >> 12) & 0b111)?,
                        src1: Register::new((v >> 15) & 0b11111)?,
                        src2: Register::new((v >> 20) & 0b11111)?,
                    },
                ),
            )
        } else if op == JAL {
            let imm = v >> 12;
            Ok(
                Instruction::JumpAndLink(
                    JumpAndLink {
                        dest: Register::new((v >> 7) & 0b11111)?,
                        offset: I20::new(
                            ((imm & 0xff) << 11) | ((imm & 0x100) << 2) | ((imm & 0x7fe00) >> 9) | (
                            imm & 0x80000),
                        )?,
                    },
                ),
            )
        } else if op == JALR && v & (0b111 << 12) == 0 {
            Ok(
                Instruction::JumpAndLinkRegister(
                    JumpAndLinkRegister {
                        dest: Register::new((v >> 7) & 0b11111)?,
                        base: Register::new((v >> 15) & 0b11111)?,
                        offset: I12::new(v >> 20)?,
                    },
                ),
            )
        } else if op == SYSTEM {
            let sys = if v >> 7 == 0 {
                System::Ecall
            } else if v >> 7 == 0b10000000000000 {
                System::Ebreak
            } else {
                match CsrFunct::new((v >> 12) & 0b111) {
                    Ok(funct) => System::Csr(
                        Csr {
                            dest: Register::new((v >> 7) & 0b11111)?,
                            funct,
                            src: Register::new((v >> 15) & 0b11111)?,
                            csr: I12::new(v >> 20)?,
                        },
                    ),
                    Err(_) => {
                        return Err(DecodeError::UnknownSystem);
                    },
                }
            };
            Ok(Instruction::System(sys))
        } else if op == LOAD_FP {
            Ok(
                Instruction::LoadFp(
                    LoadFp {
                        dest: Register::new((v >> 7) & 0b11111)?,
                        width: FpWidth::new((v >> 12) & 0b111)?,
                        base: Register::new((v >> 15) & 0b11111)?,
                        offset: I12::new(v >> 20)?,
                    },
                ),
            )
        } else if op == STORE_FP {
            Ok(
                Instruction::StoreFp(
                    StoreFp {
                        offset: I12::new(((v >> 7) & 0b11111) | ((v >> 20) & 0b111111100000))?,
                        width: FpWidth::new((v >> 12) & 0b111)?,
                        base: Register::new((v >> 15) & 0b11111)?,
                        src: Register::new((v >> 20) & 0b11111)?,
                    },
                ),
            )
        } else if op == OP_FP {
            Ok(
                Instruction::Fp(
                    Fp {
                        dest: Register::new((v >> 7) & 0b11111)?,
                        funct: FloatFunct::new(v >> 25)?,
                        rounding_mode: RoundingMode::new((v >> 12) & 0b111)?,
                        src1: Register::new((v >> 15) & 0b11111)?,
                        src2: Register::new((v >> 20) & 0b11111)?,
                    },
                ),
            )
        } else if op == MADD || op == MSUB || op == NMSUB || op == NMADD {
            let type_ = if op == MADD {
                FuseType::MultiplyAdd
            } else if op == MSUB {
                FuseType::MultiplySubtract
            } else if op == NMSUB {
                FuseType::NegatedMultiplySubtract
            } else {
                FuseType::NegatedMultiplyAdd
            };
            let fmt = (v >> 25) & 0b11;
            let width = if fmt == 0 {
                FloatWidth::Single
            } else if fmt == 1 {
                FloatWidth::Double
            } else {
                return Err(DecodeError::UnknownFloatWidth);
            };
            Ok(
                Instruction::Fused(
                    Fused {
                        type_,
                        width,
                        dest: Register::new((v >> 7) & 0b11111)?,
                        rounding_mode: RoundingMode::new((v >> 12) & 0b111)?,
                        src1: Register::new((v >> 15) & 0b11111)?,
                        src2: Register::new((v >> 20) & 0b11111)?,
                        src3: Register::new(v >> 27)?,
                    },
                ),
            )
        } else if op == AMO {
            Ok(
                Instruction::Amo(
                    Amo {
                        dest: Register::new((v >> 7) & 0b11111)?,
                        src1: Register::new((v >> 15) & 0b11111)?,
                        src2: Register::new((v >> 20) & 0b11111)?,
                        release: v & (1 << 25) != 0,
                        acquire: v & (1 << 26) != 0,
                        funct: AmoFunct::new(v >> 27)?,
                    },
                ),
            )
        } else {
            Err(DecodeError::UnknownOpcode)
        }
    }
}


pub const C0_ADDI4SPN: u16 = 0b000;
pub const C0_FLD: u16 = 0b001;
pub const C0_LW: u16 = 0b010;
pub const C0_FLW: u16 = 0b011;
pub const C0_FSD: u16 = 0b101;
pub const C0_SW: u16 = 0b110;
pub const C0_FSW: u16 = 0b111;
pub const C1_ADDI: u16 = 0b000;
pub const C1_JAL: u16 = 0b001;
pub const C1_LI: u16 = 0b010;
/// Becomes C.ADDI16SP when rd is x2.
pub const C1_LUI: u16 = 0b011;
pub const C1_MANY: u16 = 0b100;
pub const C1_J: u16 = 0b101;
pub const C1_BEQZ: u16 = 0b110;
pub const C1_BNEZ: u16 = 0b111;
pub const C2_SLLI: u16 = 0b000;
pub const C2_FLDSP: u16 = 0b001;
pub const C2_LWSP: u16 = 0b010;
pub const C2_FLWSP: u16 = 0b011;
pub const C2_MANY: u16 = 0b100;
pub const C2_FSDSP: u16 = 0b101;
pub const C2_SWSP: u16 = 0b110;
pub const C2_FSWSP: u16 = 0b111;

// Fields of a 16-bit instruction, as this decoder reads them.
/// rd' / rs2' (bits 4:2), a register among x8..x15.
pub open spec fn c_rdp(v: u16) -> u16 {
    (v >> 2) & 7
}

/// rs1' / rd' (bits 9:7), a register among x8..x15.
pub open spec fn c_rs1p(v: u16) -> u16 {
    (v >> 7) & 7
}

/// rd / rs1 (bits 11:7).
pub open spec fn c_rd(v: u16) -> u16 {
    (v >> 7) & 31
}

/// rs2 (bits 6:2).
pub open spec fn c_rs2(v: u16) -> u16 {
    (v >> 2) & 31
}

/// The 6-bit immediate: bit 5 from bit 12, bits 4:0 from bits 6:2.
pub open spec fn c_imm6(v: u16) -> u16 {
    ((v & 0b1111100) >> 2) | ((v & 0x1000) >> 7)
}

/// The stack offset of C.ADDI4SPN.
pub open spec fn c_addi4spn_imm(v: u16) -> u16 {
    let imm = (v >> 5) & 0xff;
    ((((imm & 1) << 1) | ((imm & 0b10) >> 1) | ((imm & 0b111100) << 2) | ((imm & 0b11000000)
        >> 4)) * 4) as u16
}

/// The offset of the register-based loads and stores: bits 12:10 placed at 5:3.
pub open spec fn c_ls_imm(v: u16) -> u16 {
    (v & 0b1110000000000) >> 7
}

/// The raw 11 bits of a C.J / C.JAL offset in half-words.
pub open spec fn c_j_imm(v: u16) -> u16 {
    ((v & 0b111000) >> 3) | ((v & 0b100000000000) >> 8) | ((v & 0b100) << 2) | ((v & 0b10000000)
        >> 2) | (v & 0b1000000) | ((v & 0b11000000000) >> 2) | ((v & 0b100000000) << 1) | ((v
        & 0b1000000000000) >> 2)
}

/// The raw 9 bits of a C.BEQZ / C.BNEZ offset.
pub open spec fn c_b_imm(v: u16) -> u16 {
    ((v & 0b11000) >> 2) | ((v & 0b110000000000) >> 7) | ((v & 0b100) << 3) | ((v & 0b1100000)
        << 1) | ((v & 0b1000000000000) >> 4)
}

/// The raw 10 bits of the C.ADDI16SP adjustment.
pub open spec fn c_addi16sp_imm(v: u16) -> u16 {
    ((v & 0b1000000) >> 2) | ((v & 0b100) << 3) | ((v & 0b100000) << 1) | ((v & 0b11000) << 4)
        | ((v & 0b1000000000000) >> 3)
}

/// The offset of C.FLDSP.
pub open spec fn c_fldsp_imm(v: u16) -> u16 {
    ((v & 0b1100000) >> 2) | ((v & 0x1000) >> 7) | ((v & 0b11100) << 4)
}

/// The offset of C.LWSP and C.FLWSP.
pub open spec fn c_lwsp_imm(v: u16) -> u16 {
    ((v & 0b1110000) >> 2) | ((v & 0x1000) >> 7) | ((v & 0b1100) << 4)
}

/// The offset of C.FSDSP.
pub open spec fn c_fsdsp_imm(v: u16) -> u16 {
    ((v & 0b1110000000) >> 1) | ((v & 0b1110000000000) >> 7)
}

/// The offset of C.SWSP and C.FSWSP.
pub open spec fn c_swsp_imm(v: u16) -> u16 {
    ((v & 0b110000000) >> 1) | ((v & 0b1111000000000) >> 7)
}

pub open spec fn reg_rvc(i: u16) -> Register {
    Register::from_index((i + 8) as u32)
}

pub open spec fn imm_sext(raw: u16, bits: nat) -> I12 {
    I12::from_value(sign_extend(raw as int, bits))
}

/// The reserved C.LWSP encoding with rd = x0, on which the decoder stops
/// (it treats the case as impossible).
pub open spec fn is_lwsp_without_dest(v: u16) -> bool {
    v & 3 == 2 && v >> 13 == C2_LWSP && c_rd(v) == 0
}

/// What a 16-bit (compressed) instruction means, or why it is refused.
pub open spec fn spec_decode_compressed(v: u16) -> Result<Instruction, DecodeError> {
    let quadrant = v & 3;
    let f3 = v >> 13;
    if quadrant == 0 {
        if f3 == C0_ADDI4SPN {
            Ok(
                Instruction::IntImmediate(
                    IntImmediate {
                        dest: reg_rvc(c_rdp(v)),
                        funct: IntImmediateFunct::Imm12(
                            Imm12::Add,
                            imm_sext(c_addi4spn_imm(v), 12),
                        ),
                        src: reg(2),
                    },
                ),
            )
        } else if f3 == C0_FLD || f3 == C0_FLW {
            Ok(
                Instruction::LoadFp(
                    LoadFp {
                        dest: reg_rvc(c_rdp(v)),
                        width: if f3 == C0_FLD {
                            FpWidth::Double
                        } else {
                            FpWidth::Word
                        },
                        base: reg_rvc(c_rs1p(v)),
                        offset: imm_sext(c_ls_imm(v), 12),
                    },
                ),
            )
        } else if f3 == C0_LW {
            Ok(
                Instruction::LoadInt(
                    LoadInt {
                        dest: reg_rvc(c_rdp(v)),
                        width: LoadWidth::Word,
                        base: reg_rvc(c_rs1p(v)),
                        offset: imm_sext(c_ls_imm(v), 12),
                    },
                ),
            )
        } else if f3 == C0_FSD || f3 == C0_FSW {
            Ok(
                Instruction::StoreFp(
                    StoreFp {
                        offset: imm_sext(c_ls_imm(v), 12),
                        width: if f3 == C0_FSD {
                            FpWidth::Double
                        } else {
                            FpWidth::Word
                        },
                        base: reg_rvc(c_rs1p(v)),
                        src: reg_rvc(c_rdp(v)),
                    },
                ),
            )
        } else if f3 == C0_SW {
            Ok(
                Instruction::StoreInt(
                    StoreInt {
                        offset: imm_sext(c_ls_imm(v), 12),
                        width: StoreWidth::Word,
                        base: reg_rvc(c_rs1p(v)),
                        src: reg_rvc(c_rdp(v)),
                    },
                ),
            )
        } else {
            Err(DecodeError::UnknownOpcode)
        }
    } else if quadrant == 1 {
        if f3 == C1_ADDI || f3 == C1_LI {
            Ok(
                Instruction::IntImmediate(
                    IntImmediate {
                        dest: reg(c_rd(v) as u32),
                        funct: IntImmediateFunct::Imm12(Imm12::Add, imm_sext(c_imm6(v), 6)),
                        src: if f3 == C1_ADDI {
                            reg(c_rd(v) as u32)
                        } else {
                            reg(0)
                        },
                    },
                ),
            )
        } else if f3 == C1_JAL || f3 == C1_J {
            Ok(
                Instruction::JumpAndLink(
                    JumpAndLink {
                        dest: if f3 == C1_JAL {
                            reg(1)
                        } else {
                            reg(0)
                        },
                        offset: I20::from_value(2 * sign_extend(c_j_imm(v) as int, 11)),
                    },
                ),
            )
        } else if f3 == C1_LUI {
            if c_rd(v) != 2 {
                Ok(
                    Instruction::U(
                        U {
                            type_: UType::LoadUpperImmediate,
                            dest: reg(c_rd(v) as u32),
                            imm: U20::from_value(
                                (if c_imm6(v) < 0x20 {
                                    c_imm6(v) as int
                                } else {
                                    c_imm6(v) + 0xfffc0
                                }) as u32,
                            ),
                        },
                    ),
                )
            } else if v & 0b1111100 != 0 || v & 0x1000 != 0 {
                Ok(
                    Instruction::IntImmediate(
                        IntImmediate {
                            dest: reg(2),
                            funct: IntImmediateFunct::Imm12(
                                Imm12::Add,
                                imm_sext(c_addi16sp_imm(v), 10),
                            ),
                            src: reg(2),
                        },
                    ),
                )
            } else {
                Err(DecodeError::UnknownOpcode)
            }
        } else if f3 == C1_MANY {
            let funct2 = (v >> 10) & 3;
            if funct2 == 0 || funct2 == 1 {
                match U5::spec_new(c_imm6(v) as u32) {
                    Ok(n) => Ok(
                        Instruction::IntImmediate(
                            IntImmediate {
                                dest: reg_rvc(c_rs1p(v)),
                                funct: IntImmediateFunct::ImmShift(
                                    if funct2 == 0 {
                                        ImmShift::ShiftRightLogical
                                    } else {
                                        ImmShift::ShiftRightArithmetic
                                    },
                                    n,
                                ),
                                src: reg_rvc(c_rs1p(v)),
                            },
                        ),
                    ),
                    Err(e) => Err(e),
                }
            } else if funct2 == 2 {
                Ok(
                    Instruction::IntImmediate(
                        IntImmediate {
                            dest: reg_rvc(c_rs1p(v)),
                            funct: IntImmediateFunct::Imm12(Imm12::And, imm_sext(c_imm6(v), 6)),
                            src: reg_rvc(c_rs1p(v)),
                        },
                    ),
                )
            } else if (v >> 12) & 1 == 0 {
                let low = (v >> 5) & 3;
                Ok(
                    Instruction::Int(
                        Int {
                            dest: reg_rvc(c_rs1p(v)),
                            funct: if low == 0 {
                                IntegerFunct::Subtract
                            } else if low == 1 {
                                IntegerFunct::Xor
                            } else if low == 2 {
                                IntegerFunct::Or
                            } else {
                                IntegerFunct::And
                            },
                            src1: reg_rvc(c_rs1p(v)),
                            src2: reg_rvc(c_rdp(v)),
                        },
                    ),
                )
            } else {
                Err(DecodeError::UnknownOpcode)
            }
        } else {
            Ok(
                Instruction::Branch(
                    Branch {
                        offset: imm_sext(c_b_imm(v), 9),
                        funct: if f3 == C1_BEQZ {
                            BranchType::Equal
                        } else {
                            BranchType::NotEqual
                        },
                        src1: reg_rvc(c_rs1p(v)),
                        src2: reg(0),
                    },
                ),
            )
        }
    } else if quadrant == 2 {
        if f3 == C2_SLLI {
            match U5::spec_new(c_imm6(v) as u32) {
                Ok(n) => Ok(
                    Instruction::IntImmediate(
                        IntImmediate {
                            dest: reg(c_rd(v) as u32),
                            funct: IntImmediateFunct::ImmShift(ImmShift::ShiftLeft, n),
                            src: reg(c_rd(v) as u32),
                        },
                    ),
                ),
                Err(e) => Err(e),
            }
        } else if f3 == C2_FLDSP {
            Ok(
                Instruction::LoadFp(
                    LoadFp {
                        dest: reg(c_rd(v) as u32),
                        width: FpWidth::Double,
                        base: reg(2),
                        offset: imm_sext(c_fldsp_imm(v), 12),
                    },
                ),
            )
        } else if f3 == C2_LWSP {
            Ok(
                Instruction::LoadInt(
                    LoadInt {
                        dest: reg(c_rd(v) as u32),
                        width: LoadWidth::Word,
                        base: reg(2),
                        offset: imm_sext(c_lwsp_imm(v), 12),
                    },
                ),
            )
        } else if f3 == C2_FLWSP {
            Ok(
                Instruction::LoadFp(
                    LoadFp {
                        dest: reg(c_rd(v) as u32),
                        width: FpWidth::Word,
                        base: reg(2),
                        offset: imm_sext(c_lwsp_imm(v), 12),
                    },
                ),
            )
        } else if f3 == C2_MANY {
            let b12 = v & 0x1000 != 0;
            let has_rd = c_rd(v) != 0;
            let has_rs2 = c_rs2(v) != 0;
            if has_rs2 {
                Ok(
                    Instruction::Int(
                        Int {
                            dest: reg(c_rd(v) as u32),
                            funct: IntegerFunct::Add,
                            src1: if b12 {
                                reg(c_rd(v) as u32)
                            } else {
                                reg(0)
                            },
                            src2: reg(c_rs2(v) as u32),
                        },
                    ),
                )
            } else if has_rd {
                Ok(
                    Instruction::JumpAndLinkRegister(
                        JumpAndLinkRegister {
                            dest: if b12 {
                                reg(1)
                            } else {
                                reg(0)
                            },
                            base: reg(c_rd(v) as u32),
                            offset: I12::from_value(0),
                        },
                    ),
                )
            } else if b12 {
                Ok(Instruction::System(System::Ebreak))
            } else {
                Err(DecodeError::UnknownOpcode)
            }
        } else if f3 == C2_FSDSP {
            Ok(
                Instruction::StoreFp(
                    StoreFp {
                        offset: imm_sext(c_fsdsp_imm(v), 12),
                        width: FpWidth::Double,
                        base: reg(2),
                        src: reg(c_rs2(v) as u32),
                    },
                ),
            )
        } else if f3 == C2_SWSP {
            Ok(
                Instruction::StoreInt(
                    StoreInt {
                        offset: imm_sext(c_swsp_imm(v), 12),
                        width: StoreWidth::Word,
                        base: reg(2),
                        src: reg(c_rs2(v) as u32),
                    },
                ),
            )
        } else {
            Ok(
                Instruction::StoreFp(
                    StoreFp {
                        offset: imm_sext(c_swsp_imm(v), 12),
                        width: FpWidth::Word,
                        base: reg(2),
                        src: reg(c_rs2(v) as u32),
                    },
                ),
            )
        }
    } else {
        Err(DecodeError::NotCompressed)
    }
}

proof fn lemma_half_fields(v: u16)
    by (bit_vector)
    ensures
        v & 3 < 4,
        v >> 13 < 8,
        c_rdp(v) < 8,
        c_rs1p(v) < 8,
        c_rd(v) < 32,
        c_rs2(v) < 32,
        c_imm6(v) < 64,
        c_addi4spn_imm(v) < 0x400,
        c_ls_imm(v) < 0x40,
        c_j_imm(v) < 0x800,
        c_b_imm(v) < 0x200,
        c_addi16sp_imm(v) < 0x400,
        c_fldsp_imm(v) < 0x200,
        c_lwsp_imm(v) < 0x100,
        c_fsdsp_imm(v) < 0x200,
        c_swsp_imm(v) < 0x100,
        (v & 0b111110000000) >> 7 == c_rd(v),
        (v & 0b1111100) >> 2 == c_rs2(v),
        (v & 0b111110000000 != 0) == (c_rd(v) != 0),
        (v & 0b1111100 != 0) == (c_rs2(v) != 0),
        (v >> 7) & 0x1f == c_rd(v),
        (v >> 10) & 3 < 4,
        (v >> 5) & 3 < 4,
        (v >> 12) & 1 < 2,
        (v >> 5) & 0xff < 0x100,
{
}


impl Instruction {
    /// Decodes a 16-bit (compressed) instruction.
    pub fn decode_compressed(v: u16) -> (r: Result<Instruction, DecodeError>)
        requires
            !is_lwsp_without_dest(v),
        ensures
            r == spec_decode_compressed(v),
    {
        proof {
            lemma_half_fields(v);
        }
        let quadrant = v & 0b11;
        let f3 = v >> 13;
        if quadrant == 0 {
            if f3 == C0_ADDI4SPN {
                let imm = (v >> 5) & 0xff;
                let nzuimm = ((imm & 1) << 1) | ((imm & 0b10) >> 1) | ((imm & 0b111100) << 2) | ((
                imm & 0b11000000) >> 4);
                assert(nzuimm < 0x100) by (bit_vector)
                    requires
                        imm < 0x100,
                        nzuimm == ((imm & 1) << 1) | ((imm & 0b10) >> 1) | ((imm & 0b111100) << 2)
                            | ((imm & 0b11000000) >> 4),
                ;
                Ok(
                    Instruction::IntImmediate(
                        IntImmediate {
                            dest: Register::new_rvc((v >> 2) & 0b111)?,
                            funct: IntImmediateFunct::Imm12(
                                Imm12::Add,
                                I12::new((nzuimm * 4) as u32)?,
                            ),
                            src: Register::sp(),
                        },
                    ),
                )
            } else if f3 == C0_FLD {
                Ok(
                    Instruction::LoadFp(
                        LoadFp {
                            dest: Register::new_rvc((v >> 2) & 0b111)?,
                            width: FpWidth::Double,
                            base: Register::new_rvc((v >> 7) & 0b111)?,
                            offset: I12::new(((v & 0b1110000000000) >> 7) as u32)?,
                        },
                    ),
                )
            } else if f3 == C0_LW {
                Ok(
                    Instruction::LoadInt(
                        LoadInt {
                            dest: Register::new_rvc((v >> 2) & 0b111)?,
                            width: LoadWidth::Word,
                            base: Register::new_rvc((v >> 7) & 0b111)?,
                            offset: I12::new(((v & 0b1110000000000) >> 7) as u32)?,
                        },
                    ),
                )
            } else if f3 == C0_FLW {
                Ok(
                    Instruction::LoadFp(
                        LoadFp {
                            dest: Register::new_rvc((v >> 2) & 0b111)?,
                            width: FpWidth::Word,
                            base: Register::new_rvc((v >> 7) & 0b111)?,
                            offset: I12::new(((v & 0b1110000000000) >> 7) as u32)?,
                        },
                    ),
                )
            } else if f3 == C0_FSD {
                Ok(
                    Instruction::StoreFp(
                        StoreFp {
                            offset: I12::new(((v & 0b1110000000000) >> 7) as u32)?,
                            width: FpWidth::Double,
                            base: Register::new_rvc((v >> 7) & 0b111)?,
                            src: Register::new_rvc((v >> 2) & 0b111)?,
                        },
                    ),
                )
            } else if f3 == C0_SW {
                Ok(
                    Instruction::StoreInt(
                        StoreInt {
                            offset: I12::new(((v & 0b1110000000000) >> 7) as u32)?,
                            width: StoreWidth::Word,
                            base: Register::new_rvc((v >> 7) & 0b111)?,
                            src: Register::new_rvc((v >> 2) & 0b111)?,
                        },
                    ),
                )
            } else if f3 == C0_FSW {
                Ok(
                    Instruction::StoreFp(
                        StoreFp {
                            offset: I12::new(((v & 0b1110000000000) >> 7) as u32)?,
                            width: FpWidth::Word,
                            base: Register::new_rvc((v >> 7) & 0b111)?,
                            src: Register::new_rvc((v >> 2) & 0b111)?,
                        },
                    ),
                )
            } else {
                // reserved
                Err(DecodeError::UnknownOpcode)
            }
        } else if quadrant == 1 {
            let imm6 = ((v & 0b1111100) >> 2) | ((v & 0x1000) >> 7);
            if f3 == C1_ADDI {
                Ok(
                    Instruction::IntImmediate(
                        IntImmediate {
                            dest: Register::new(((v >> 7) & 0b11111) as u32)?,
                            funct: IntImmediateFunct::Imm12(Imm12::Add, I12::new_6(imm6)?),
                            src: Register::new(((v >> 7) & 0b11111) as u32)?,
                        },
                    ),
                )
            } else if f3 == C1_JAL || f3 == C1_J {
                let off = ((v & 0b111000) >> 3) | ((v & 0b100000000000) >> 8) | ((v & 0b100) << 2)
                    | ((v & 0b10000000) >> 2) | (v & 0b1000000) | ((v & 0b11000000000) >> 2) | ((v
                    & 0b100000000) << 1) | ((v & 0b1000000000000) >> 2);
                Ok(
                    Instruction::JumpAndLink(
                        JumpAndLink {
                            dest: if f3 == C1_JAL {
                                Register::ra()
                            } else {
                                Register::zero()
                            },
                            offset: I20::new_11(off)?,
                        },
                    ),
                )
            } else if f3 == C1_LI {
                Ok(
                    Instruction::IntImmediate(
                        IntImmediate {
                            dest: Register::new(((v >> 7) & 0b11111) as u32)?,
                            funct: IntImmediateFunct::Imm12(Imm12::Add, I12::new_6(imm6)?),
                            src: Register::zero(),
                        },
                    ),
                )
            } else if f3 == C1_LUI {
                let rd = (v >> 7) & 0b11111;
                if rd != 2 {
                    Ok(
                        Instruction::U(
                            U {
                                type_: UType::LoadUpperImmediate,
                                dest: Register::new(rd as u32)?,
                                imm: U20::new_i6(imm6)?,
                            },
                        ),
                    )
                } else if v & 0b1111100 != 0 || v & 0x1000 != 0 {
                    let off = ((v & 0b1000000) >> 2) | ((v & 0b100) << 3) | ((v & 0b100000) << 1)
                        | ((v & 0b11000) << 4) | ((v & 0b1000000000000) >> 3);
                    Ok(
                        Instruction::IntImmediate(
                            IntImmediate {
                                dest: Register::sp(),
                                funct: IntImmediateFunct::Imm12(Imm12::Add, I12::new_10(off)?),
                                src: Register::sp(),
                            },
                        ),
                    )
                } else {
                    // reserved
                    Err(DecodeError::UnknownOpcode)
                }
            } else if f3 == C1_MANY {
                let funct2 = (v >> 10) & 0b11;
                if funct2 == 0b00 {
                    Ok(
                        Instruction::IntImmediate(
                            IntImmediate {
                                dest: Register::new_rvc((v >> 7) & 0b111)?,
                                funct: IntImmediateFunct::ImmShift(
                                    ImmShift::ShiftRightLogical,
                                    U5::new(imm6 as u32)?,
                                ),
                                src: Register::new_rvc((v >> 7) & 0b111)?,
                            },
                        ),
                    )
                } else if funct2 == 0b01 {
                    Ok(
                        Instruction::IntImmediate(
                            IntImmediate {
                                dest: Register::new_rvc((v >> 7) & 0b111)?,
                                funct: IntImmediateFunct::ImmShift(
                                    ImmShift::ShiftRightArithmetic,
                                    U5::new(imm6 as u32)?,
                                ),
                                src: Register::new_rvc((v >> 7) & 0b111)?,
                            },
                        ),
                    )
                } else if funct2 == 0b10 {
                    Ok(
                        Instruction::IntImmediate(
                            IntImmediate {
                                dest: Register::new_rvc((v >> 7) & 0b111)?,
                                funct: IntImmediateFunct::Imm12(Imm12::And, I12::new_6(imm6)?),
                                src: Register::new_rvc((v >> 7) & 0b111)?,
                            },
                        ),
                    )
                } else {
                    let funct2_low = (v >> 5) & 0b11;
                    let bit12 = (v >> 12) & 1;
                    if bit12 == 0 {
                        let funct = if funct2_low == 0b00 {
                            IntegerFunct::Subtract
                        } else if funct2_low == 0b01 {
                            IntegerFunct::Xor
                        } else if funct2_low == 0b10 {
                            IntegerFunct::Or
                        } else {
                            IntegerFunct::And
                        };
                        Ok(
                            Instruction::Int(
                                Int {
                                    dest: Register::new_rvc((v >> 7) & 0b111)?,
                                    funct,
                                    src1: Register::new_rvc((v >> 7) & 0b111)?,
                                    src2: Register::new_rvc((v >> 2) & 0b111)?,
                                },
                            ),
                        )
                    } else {
                        // reserved (C.SUBW, C.ADDW are RV64 only)
                        Err(DecodeError::UnknownOpcode)
                    }
                }
            } else {
                let off = ((v & 0b11000) >> 2) | ((v & 0b110000000000) >> 7) | ((v & 0b100) << 3)
                    | ((v & 0b1100000) << 1) | ((v & 0b1000000000000) >> 4);
                Ok(
                    Instruction::Branch(
                        Branch {
                            offset: I12::new_9(off)?,
                            funct: if f3 == C1_BEQZ {
                                BranchType::Equal
                            } else {
                                BranchType::NotEqual
                            },
                            src1: Register::new_rvc((v >> 7) & 0b111)?,
                            src2: Register::zero(),
                        },
                    ),
                )
            }
        } else if quadrant == 2 {
            if f3 == C2_SLLI {
                Ok(
                    Instruction::IntImmediate(
                        IntImmediate {
                            dest: Register::new(((v >> 7) & 0b11111) as u32)?,
                            funct: IntImmediateFunct::ImmShift(
                                ImmShift::ShiftLeft,
                                U5::new((((v & 0b1111100) >> 2) | ((v & 0x1000) >> 7)) as u32)?,
                            ),
                            src: Register::new(((v >> 7) & 0b11111) as u32)?,
                        },
                    ),
                )
            } else if f3 == C2_FLDSP {
                Ok(
                    Instruction::LoadFp(
                        LoadFp {
                            dest: Register::new(((v >> 7) & 0b11111) as u32)?,
                            width: FpWidth::Double,
                            base: Register::sp(),
                            offset: I12::new(
                                (((v & 0b1100000) >> 2) | ((v & 0x1000) >> 7) | ((v & 0b11100)
                                    << 4)) as u32,
                            )?,
                        },
                    ),
                )
            } else if f3 == C2_LWSP {
                Ok(
                    Instruction::LoadInt(
                        LoadInt {
                            dest: Register::new(((v >> 7) & 0b11111) as u32)?,
                            width: LoadWidth::Word,
                            base: Register::sp(),
                            offset: I12::new(
                                (((v & 0b1110000) >> 2) | ((v & 0x1000) >> 7) | ((v & 0b1100)
                                    << 4)) as u32,
                            )?,
                        },
                    ),
                )
            } else if f3 == C2_FLWSP {
                Ok(
                    Instruction::LoadFp(
                        LoadFp {
                            dest: Register::new(((v >> 7) & 0b11111) as u32)?,
                            width: FpWidth::Word,
                            base: Register::sp(),
                            offset: I12::new(
                                (((v & 0b1110000) >> 2) | ((v & 0x1000) >> 7) | ((v & 0b1100)
                                    << 4)) as u32,
                            )?,
                        },
                    ),
                )
            } else if f3 == C2_MANY {
                let b12 = v & 0x1000 != 0;
                let has_rd = v & 0b111110000000 != 0;
                let has_rs2 = v & 0b1111100 != 0;
                if !b12 && has_rd && !has_rs2 {
                    Ok(
                        Instruction::JumpAndLinkRegister(
                            JumpAndLinkRegister {
                                dest: Register::zero(),
                                base: Register::new(((v & 0b111110000000) >> 7) as u32)?,
                                offset: I12::zero(),
                            },
                        ),
                    )
                } else if !b12 && has_rs2 {
                    Ok(
                        Instruction::Int(
                            Int {
                                dest: Register::new(((v & 0b111110000000) >> 7) as u32)?,
                                funct: IntegerFunct::Add,
                                src1: Register::zero(),
                                src2: Register::new(((v & 0b1111100) >> 2) as u32)?,
                            },
                        ),
                    )
                } else if b12 && !has_rd && !has_rs2 {
                    Ok(Instruction::System(System::Ebreak))
                } else if b12 && has_rd && !has_rs2 {
                    Ok(
                        Instruction::JumpAndLinkRegister(
                            JumpAndLinkRegister {
                                dest: Register::ra(),
                                base: Register::new(((v & 0b111110000000) >> 7) as u32)?,
                                offset: I12::zero(),
                            },
                        ),
                    )
                } else if b12 && has_rs2 {
                    Ok(
                        Instruction::Int(
                            Int {
                                dest: Register::new(((v & 0b111110000000) >> 7) as u32)?,
                                funct: IntegerFunct::Add,
                                src1: Register::new(((v & 0b111110000000) >> 7) as u32)?,
                                src2: Register::new(((v & 0b1111100) >> 2) as u32)?,
                            },
                        ),
                    )
                } else {
                    // reserved
                    Err(DecodeError::UnknownOpcode)
                }
            } else if f3 == C2_FSDSP {
                Ok(
                    Instruction::StoreFp(
                        StoreFp {
                            offset: I12::new(
                                (((v & 0b1110000000) >> 1) | ((v & 0b1110000000000) >> 7)) as u32,
                            )?,
                            width: FpWidth::Double,
                            base: Register::sp(),
                            src: Register::new(((v >> 2) & 0b11111) as u32)?,
                        },
                    ),
                )
            } else if f3 == C2_SWSP {
                Ok(
                    Instruction::StoreInt(
                        StoreInt {
                            offset: I12::new(
                                (((v & 0b110000000) >> 1) | ((v & 0b1111000000000) >> 7)) as u32,
                            )?,
                            width: StoreWidth::Word,
                            base: Register::sp(),
                            src: Register::new(((v >> 2) & 0b11111) as u32)?,
                        },
                    ),
                )
            } else {
                Ok(
                    Instruction::StoreFp(
                        StoreFp {
                            offset: I12::new(
                                (((v & 0b110000000) >> 1) | ((v & 0b1111000000000) >> 7)) as u32,
                            )?,
                            width: FpWidth::Word,
                            base: Register::sp(),
                            src: Register::new(((v >> 2) & 0b11111) as u32)?,
                        },
                    ),
                )
            }
        } else {
            Err(DecodeError::NotCompressed)
        }
    }
}

/// The 32-bit instruction that a quadrant-2 `100` compressed instruction
/// stands for: `c.mv` and `c.add` are `add`, `c.jr` and `c.jalr` are
/// `jalr` with offset 0, and `c.ebreak` is `ebreak`.
pub open spec fn expand_c2_many(v: u16) -> u32 {
    let rd = c_rd(v) as u32;
    let rs2 = c_rs2(v) as u32;
    let b12 = v & 0x1000 != 0;
    if rs2 != 0 {
        (rs2 << 20) | ((if b12 { rd } else { 0 }) << 15) | (rd << 7) | OP
    } else if rd != 0 {
        (rd << 15) | ((if b12 { 1u32 } else { 0u32 }) << 7) | JALR
    } else {
        0x0010_0073
    }
}

proof fn lemma_compose_fields(a: u32, b: u32, d: u32, op: u32)
    by (bit_vector)
    requires
        a < 32,
        b < 32,
        d < 32,
        op < 128,
    ensures
        opcode((a << 20) | (b << 15) | (d << 7) | op) == op,
        rd((a << 20) | (b << 15) | (d << 7) | op) == d,
        funct3((a << 20) | (b << 15) | (d << 7) | op) == 0,
        rs1((a << 20) | (b << 15) | (d << 7) | op) == b,
        rs2((a << 20) | (b << 15) | (d << 7) | op) == a,
        funct7((a << 20) | (b << 15) | (d << 7) | op) == 0,
        i_imm((a << 20) | (b << 15) | (d << 7) | op) == a,
        ((a << 20) | (b << 15) | (d << 7) | op) >> 7 == (a << 13) | (b << 8) | d,
{
}

/// A compressed instruction of quadrant 2 with funct3 `100` decodes to
/// what the 32-bit instruction it stands for decodes to.
pub proof fn law_c2_many_expands(v: u16)
    requires
        v & 3 == 2,
        v >> 13 == C2_MANY,
        c_rd(v) != 0 || c_rs2(v) != 0 || v & 0x1000 != 0,
    ensures
        spec_decode_compressed(v) == spec_decode(expand_c2_many(v)),
{
    lemma_half_fields(v);
    let rd = c_rd(v) as u32;
    let rs2 = c_rs2(v) as u32;
    let b12 = v & 0x1000 != 0;
    let w = expand_c2_many(v);
    if rs2 != 0 {
        let rs1 = if b12 { rd } else { 0 };
        lemma_compose_fields(rs2, rs1, rd, OP);
        assert(w == (rs2 << 20) | (rs1 << 15) | (rd << 7) | OP);
        assert(IntegerFunct::spec_new(funct3(w) | (funct7(w) << 3)) == Ok::<IntegerFunct, DecodeError>(IntegerFunct::Add)) by {
            assert(0u32 | (0u32 << 3) == 0) by (bit_vector);
        }
        let expected = Instruction::Int(Int { dest: reg(rd), funct: IntegerFunct::Add, src1: reg(rs1), src2: reg(rs2) });
        assert(spec_decode(w) == Ok::<Instruction, DecodeError>(expected));
        assert(spec_decode_compressed(v) == Ok::<Instruction, DecodeError>(expected));
    } else if rd != 0 {
        let link: u32 = if b12 { 1 } else { 0 };
        lemma_compose_fields(0, rd, link, JALR);
        vstd::arithmetic::power2::lemma_pow2_pos(11);
        assert(sign_extend(0, 12) == 0);
        assert(w == (0u32 << 20) | (rd << 15) | (link << 7) | JALR) by {
            assert(rd << 15 == (0u32 << 20) | (rd << 15)) by (bit_vector);
        }
        let expected = Instruction::JumpAndLinkRegister(JumpAndLinkRegister { dest: reg(link), base: reg(rd), offset: I12::from_value(0) });
        assert(spec_decode(w) == Ok::<Instruction, DecodeError>(expected));
        assert(spec_decode_compressed(v) == Ok::<Instruction, DecodeError>(expected));
    } else {
        assert(opcode(0x0010_0073) == SYSTEM && 0x0010_0073u32 >> 7 == 0b10000000000000) by (bit_vector);
    }
}

/// The load width that a LOAD word selects follows the RISC-V table by
/// funct3 (bits 14:12): 0 `lb` (sign-extended byte), 1 `lh`, 2 `lw`, 4
/// `lbu` (zero-extended byte), 5 `lhu`; 3, 6 and 7 are refused.  The
/// destination is bits 11:7 and the base bits 19:15.
pub proof fn law_decode_load_width(w: u32)
    requires
        w & 0x7f == 0x03,
    ensures
        ({
            let f3 = (w >> 12) & 7;
            &&& f3 == 0 ==> (spec_decode(w) matches Ok(Instruction::LoadInt(l)) && l.width == LoadWidth::Byte)
            &&& f3 == 1 ==> (spec_decode(w) matches Ok(Instruction::LoadInt(l)) && l.width == LoadWidth::Half)
            &&& f3 == 2 ==> (spec_decode(w) matches Ok(Instruction::LoadInt(l)) && l.width == LoadWidth::Word)
            &&& f3 == 4 ==> (spec_decode(w) matches Ok(Instruction::LoadInt(l)) && l.width == LoadWidth::ByteUnsigned)
            &&& f3 == 5 ==> (spec_decode(w) matches Ok(Instruction::LoadInt(l)) && l.width == LoadWidth::HalfUnsigned)
            &&& (f3 == 3 || f3 == 6 || f3 == 7) ==> spec_decode(w) is Err
            &&& spec_decode(w) matches Ok(Instruction::LoadInt(l)) ==> l.dest == reg((w >> 7) & 0x1f) && l.base == reg((w >> 15) & 0x1f)
        }),
{
}

/// The store width that a STORE word selects: funct3 0 `sb`, 1 `sh`, 2
/// `sw`; the others are refused.  The base is bits 19:15 and the source
/// bits 24:20.
pub proof fn law_decode_store_width(w: u32)
    requires
        w & 0x7f == 0x23,
    ensures
        ({
            let f3 = (w >> 12) & 7;
            &&& f3 == 0 ==> (spec_decode(w) matches Ok(Instruction::StoreInt(l)) && l.width == StoreWidth::Byte)
            &&& f3 == 1 ==> (spec_decode(w) matches Ok(Instruction::StoreInt(l)) && l.width == StoreWidth::Half)
            &&& f3 == 2 ==> (spec_decode(w) matches Ok(Instruction::StoreInt(l)) && l.width == StoreWidth::Word)
            &&& f3 >= 3 ==> spec_decode(w) is Err
            &&& spec_decode(w) matches Ok(Instruction::StoreInt(l)) ==> l.base == reg((w >> 15) & 0x1f) && l.src == reg((w >> 20) & 0x1f)
        }),
{
}

/// The comparison that a BRANCH word selects: funct3 0 `beq`, 1 `bne`, 4
/// `blt`, 5 `bge`, 6 `bltu`, 7 `bgeu`; 2 and 3 are refused.
pub proof fn law_decode_branch_type(w: u32)
    requires
        w & 0x7f == 0x63,
    ensures
        ({
            let f3 = (w >> 12) & 7;
            &&& f3 == 0 ==> (spec_decode(w) matches Ok(Instruction::Branch(b)) && b.funct == BranchType::Equal)
            &&& f3 == 1 ==> (spec_decode(w) matches Ok(Instruction::Branch(b)) && b.funct == BranchType::NotEqual)
            &&& f3 == 4 ==> (spec_decode(w) matches Ok(Instruction::Branch(b)) && b.funct == BranchType::LessThan)
            &&& f3 == 5 ==> (spec_decode(w) matches Ok(Instruction::Branch(b)) && b.funct == BranchType::GreaterThanOrEqual)
            &&& f3 == 6 ==> (spec_decode(w) matches Ok(Instruction::Branch(b)) && b.funct == BranchType::LessThanUnsigned)
            &&& f3 == 7 ==> (spec_decode(w) matches Ok(Instruction::Branch(b)) && b.funct == BranchType::GreaterThanOrEqualUnsigned)
            &&& (f3 == 2 || f3 == 3) ==> spec_decode(w) is Err
            &&& spec_decode(w) matches Ok(Instruction::Branch(b)) ==> b.src1 == reg((w >> 15) & 0x1f) && b.src2 == reg((w >> 20) & 0x1f)
        }),
{
}

/// The operation that an OP-IMM word with a 12-bit immediate selects:
/// funct3 0 `addi`, 2 `slti`, 3 `sltiu`, 4 `xori`, 6 `ori`, 7 `andi`;
/// destination bits 11:7, source bits 19:15.
pub proof fn law_decode_immediate_op(w: u32)
    requires
        w & 0x7f == 0x13,
    ensures
        ({
            let f3 = (w >> 12) & 7;
            let is = |f: Imm12| spec_decode(w) matches Ok(Instruction::IntImmediate(i)) && (i.funct matches IntImmediateFunct::Imm12(g, _) && g == f)
                && i.dest == reg((w >> 7) & 0x1f) && i.src == reg((w >> 15) & 0x1f);
            &&& f3 == 0 ==> is(Imm12::Add)
            &&& f3 == 2 ==> is(Imm12::SetLessThan)
            &&& f3 == 3 ==> is(Imm12::SetLessThanUnsigned)
            &&& f3 == 4 ==> is(Imm12::Xor)
            &&& f3 == 6 ==> is(Imm12::Or)
            &&& f3 == 7 ==> is(Imm12::And)
        }),
{
}

proof fn lemma_funct_combine(w: u32)
    by (bit_vector)
    ensures
        funct3(w) | (funct7(w) << 3) == funct3(w) + 8 * funct7(w),
        funct7(w) < 128,
{
}

/// The operation that an OP word selects by funct7 (bits 31:25) and funct3
/// (bits 14:12): with funct7 0, `add`, `sll`, `slt`, `sltu`, `xor`, `srl`,
/// `or`, `and` for funct3 0 to 7; with funct7 0x20, `sub` (0) and `sra`
/// (5); with funct7 1, `mul`, `mulh`, `mulhsu`, `mulhu`, `div`, `divu`,
/// `rem`, `remu`.  Destination bits 11:7, sources bits 19:15 and 24:20.
pub proof fn law_decode_register_op(w: u32)
    requires
        w & 0x7f == 0x33,
    ensures
        ({
            let f3 = (w >> 12) & 7;
            let f7 = w >> 25;
            let is = |f: IntegerFunct| spec_decode(w) matches Ok(Instruction::Int(i)) && i.funct == f
                && i.dest == reg((w >> 7) & 0x1f) && i.src1 == reg((w >> 15) & 0x1f) && i.src2 == reg((w >> 20) & 0x1f);
            &&& f7 == 0 && f3 == 0 ==> is(IntegerFunct::Add)
            &&& f7 == 0 && f3 == 1 ==> is(IntegerFunct::ShiftLeft)
            &&& f7 == 0 && f3 == 2 ==> is(IntegerFunct::SetLessThan)
            &&& f7 == 0 && f3 == 3 ==> is(IntegerFunct::SetLessThanUnsigned)
            &&& f7 == 0 && f3 == 4 ==> is(IntegerFunct::Xor)
            &&& f7 == 0 && f3 == 5 ==> is(IntegerFunct::ShiftRight)
            &&& f7 == 0 && f3 == 6 ==> is(IntegerFunct::Or)
            &&& f7 == 0 && f3 == 7 ==> is(IntegerFunct::And)
            &&& f7 == 0x20 && f3 == 0 ==> is(IntegerFunct::Subtract)
            &&& f7 == 0x20 && f3 == 5 ==> is(IntegerFunct::ShiftRightArithmetic)
            &&& f7 == 1 && f3 == 0 ==> is(IntegerFunct::Multiply)
            &&& f7 == 1 && f3 == 1 ==> is(IntegerFunct::MultiplyHalf)
            &&& f7 == 1 && f3 == 2 ==> is(IntegerFunct::MultiplyHalfSignedUnsigned)
            &&& f7 == 1 && f3 == 3 ==> is(IntegerFunct::MultiplyHalfUnsigned)
            &&& f7 == 1 && f3 == 4 ==> is(IntegerFunct::Divide)
            &&& f7 == 1 && f3 == 5 ==> is(IntegerFunct::DivideUnsigned)
            &&& f7 == 1 && f3 == 6 ==> is(IntegerFunct::Remainder)
            &&& f7 == 1 && f3 == 7 ==> is(IntegerFunct::RemainderUnsigned)
        }),
{
    lemma_funct_combine(w);
}

/// The 32-bit R-type word with these fields.
pub open spec fn r_type(f7: u32, rs2: u32, rs1: u32, f3: u32, rd: u32, op: u32) -> u32 {
    (f7 << 25) | (rs2 << 20) | (rs1 << 15) | (f3 << 12) | (rd << 7) | op
}

proof fn lemma_r_type_fields(f7: u32, s2: u32, s1: u32, f3: u32, d: u32, op: u32)
    by (bit_vector)
    requires
        f7 < 128,
        s2 < 32,
        s1 < 32,
        f3 < 8,
        d < 32,
        op < 128,
    ensures
        opcode(r_type(f7, s2, s1, f3, d, op)) == op,
        rd(r_type(f7, s2, s1, f3, d, op)) == d,
        funct3(r_type(f7, s2, s1, f3, d, op)) == f3,
        rs1(r_type(f7, s2, s1, f3, d, op)) == s1,
        rs2(r_type(f7, s2, s1, f3, d, op)) == s2,
        funct7(r_type(f7, s2, s1, f3, d, op)) == f7,
{
}

/// The 32-bit instruction that a compressed register-register instruction
/// of quadrant 1 stands for (`c.sub`, `c.xor`, `c.or`, `c.and` by bits
/// 6:5): `sub`, `xor`, `or` or `and` of rd' (bits 9:7) and rs2' (bits 4:2),
/// each naming register 8 plus its value, into rd'.
pub open spec fn expand_c_arith(v: u16) -> u32 {
    let d = (((v >> 7) & 7) + 8) as u32;
    let s2 = (((v >> 2) & 7) + 8) as u32;
    let f2 = (v >> 5) & 3;
    if f2 == 0 {
        r_type(0x20, s2, d, 0, d, 0x33)
    } else if f2 == 1 {
        r_type(0, s2, d, 4, d, 0x33)
    } else if f2 == 2 {
        r_type(0, s2, d, 6, d, 0x33)
    } else {
        r_type(0, s2, d, 7, d, 0x33)
    }
}

/// A compressed register-register instruction (`c.sub`, `c.xor`, `c.or`,
/// `c.and`) decodes to what the 32-bit instruction it stands for decodes
/// to.
pub proof fn law_c_arith_expands(v: u16)
    requires
        v & 3 == 1,
        v >> 13 == 4,
        (v >> 10) & 3 == 3,
        (v >> 12) & 1 == 0,
    ensures
        spec_decode_compressed(v) == spec_decode(expand_c_arith(v)),
{
    let d = (((v >> 7) & 7) + 8) as u32;
    let s2 = (((v >> 2) & 7) + 8) as u32;
    let f2 = (v >> 5) & 3;
    let (f7, f3): (u32, u32) = if f2 == 0 {
        (0x20, 0)
    } else if f2 == 1 {
        (0, 4)
    } else if f2 == 2 {
        (0, 6)
    } else {
        (0, 7)
    };
    lemma_half_fields(v);
    let w = expand_c_arith(v);
    assert(w == r_type(f7, s2, d, f3, d, 0x33));
    lemma_r_type_fields(f7, s2, d, f3, d, 0x33);
    lemma_funct_combine(w);
    assert(reg_rvc(c_rs1p(v)) == reg(d));
    assert(reg_rvc(c_rdp(v)) == reg(s2));
}

/// What each compressed opcode (quadrant in bits 1:0, funct3 in bits
/// 15:13) decodes to, by the RVC table for RV32 with F and D:
/// quadrant 0: `c.addi4spn` (add to sp), `c.fld`, `c.lw`, `c.flw`,
/// `c.fsd`, `c.sw`, `c.fsw`; quadrant 1: `c.addi` (rd += imm), `c.jal`
/// (links ra), `c.li` (x0 + imm), `c.j` (links nothing), `c.beqz`,
/// `c.bnez` (against x0), and `c.srli`, `c.srai`, `c.andi` by bits 11:10;
/// quadrant 2: `c.slli`, and the loads and stores relative to sp
/// (`c.fldsp`, `c.lwsp`, `c.flwsp`, `c.fsdsp`, `c.swsp`, `c.fswsp`).
pub proof fn law_decode_compressed_kinds(v: u16)
    ensures
        ({
            let q = v & 3;
            let f3 = v >> 13;
            let d = spec_decode_compressed(v);
            let rd = reg(((v >> 7) & 0x1f) as u32);
            &&& q == 0 && f3 == 0 ==> (d matches Ok(Instruction::IntImmediate(i)) && i.src == reg(2)
                && (i.funct matches IntImmediateFunct::Imm12(f, _) && f == Imm12::Add))
            &&& q == 0 && f3 == 1 ==> (d matches Ok(Instruction::LoadFp(l)) && l.width == FpWidth::Double)
            &&& q == 0 && f3 == 2 ==> (d matches Ok(Instruction::LoadInt(l)) && l.width == LoadWidth::Word)
            &&& q == 0 && f3 == 3 ==> (d matches Ok(Instruction::LoadFp(l)) && l.width == FpWidth::Word)
            &&& q == 0 && f3 == 4 ==> d is Err
            &&& q == 0 && f3 == 5 ==> (d matches Ok(Instruction::StoreFp(st)) && st.width == FpWidth::Double)
            &&& q == 0 && f3 == 6 ==> (d matches Ok(Instruction::StoreInt(st)) && st.width == StoreWidth::Word)
            &&& q == 0 && f3 == 7 ==> (d matches Ok(Instruction::StoreFp(st)) && st.width == FpWidth::Word)
            &&& q == 1 && f3 == 0 ==> (d matches Ok(Instruction::IntImmediate(i)) && i.dest == rd && i.src == rd
                && (i.funct matches IntImmediateFunct::Imm12(f, _) && f == Imm12::Add))
            &&& q == 1 && f3 == 1 ==> (d matches Ok(Instruction::JumpAndLink(j)) && j.dest == reg(1))
            &&& q == 1 && f3 == 2 ==> (d matches Ok(Instruction::IntImmediate(i)) && i.dest == rd && i.src == reg(0)
                && (i.funct matches IntImmediateFunct::Imm12(f, _) && f == Imm12::Add))
            &&& q == 1 && f3 == 5 ==> (d matches Ok(Instruction::JumpAndLink(j)) && j.dest == reg(0))
            &&& q == 1 && f3 == 6 ==> (d matches Ok(Instruction::Branch(b)) && b.funct == BranchType::Equal && b.src2 == reg(0))
            &&& q == 1 && f3 == 7 ==> (d matches Ok(Instruction::Branch(b)) && b.funct == BranchType::NotEqual && b.src2 == reg(0))
            &&& q == 1 && f3 == 4 && (v >> 10) & 3 == 0 ==> (d matches Ok(Instruction::IntImmediate(i)) ==> (i.funct matches IntImmediateFunct::ImmShift(f, _) && f == ImmShift::ShiftRightLogical))
            &&& q == 1 && f3 == 4 && (v >> 10) & 3 == 1 ==> (d matches Ok(Instruction::IntImmediate(i)) ==> (i.funct matches IntImmediateFunct::ImmShift(f, _) && f == ImmShift::ShiftRightArithmetic))
            &&& q == 1 && f3 == 4 && (v >> 10) & 3 == 2 ==> (d matches Ok(Instruction::IntImmediate(i)) && i.dest == i.src
                && (i.funct matches IntImmediateFunct::Imm12(f, _) && f == Imm12::And))
            &&& q == 2 && f3 == 0 ==> (d matches Ok(Instruction::IntImmediate(i)) ==> i.dest == rd && i.src == rd
                && (i.funct matches IntImmediateFunct::ImmShift(f, _) && f == ImmShift::ShiftLeft))
            &&& q == 2 && f3 == 1 ==> (d matches Ok(Instruction::LoadFp(l)) && l.width == FpWidth::Double && l.base == reg(2))
            &&& q == 2 && f3 == 2 ==> (d matches Ok(Instruction::LoadInt(l)) && l.width == LoadWidth::Word && l.base == reg(2) && l.dest == rd)
            &&& q == 2 && f3 == 3 ==> (d matches Ok(Instruction::LoadFp(l)) && l.width == FpWidth::Word && l.base == reg(2))
            &&& q == 2 && f3 == 5 ==> (d matches Ok(Instruction::StoreFp(st)) && st.width == FpWidth::Double && st.base == reg(2))
            &&& q == 2 && f3 == 6 ==> (d matches Ok(Instruction::StoreInt(st)) && st.width == StoreWidth::Word && st.base == reg(2))
            &&& q == 2 && f3 == 7 ==> (d matches Ok(Instruction::StoreFp(st)) && st.width == FpWidth::Word && st.base == reg(2))
        }),
{
}

/// The floating-point operation that an OP-FP word selects by funct7
/// (bits 31:25), as the F and D extensions define it (the low two bits are
/// the format, 0 single, 1 double): add 0x00/0x01, sub 0x04/0x05, mul
/// 0x08/0x09, div 0x0c/0x0d, sqrt 0x2c/0x2d, sign injection 0x10/0x11,
/// min/max 0x14/0x15, compare 0x50/0x51, convert to word 0x60/0x61, from
/// word 0x68/0x69, `fmv.x.w` 0x70, `fclass.d` 0x71, `fmv.w.x` 0x78,
/// `fcvt.s.d` 0x20, `fcvt.d.s` 0x21; and its rounding-mode field (bits
/// 14:12): 0 to nearest even, 1 toward zero, 2 down, 3 up, 4 to nearest
/// away from zero, 7 dynamic, 5 and 6 refused.
pub proof fn law_decode_float_op(w: u32)
    requires
        w & 0x7f == 0x53,
    ensures
        ({
            let f7 = w >> 25;
            let f3 = (w >> 12) & 7;
            let is = |f: FloatFunct| spec_decode(w) is Ok ==> (spec_decode(w) matches Ok(Instruction::Fp(i)) && i.funct == f);
            let rm = |m: RoundingMode| spec_decode(w) is Ok ==> (spec_decode(w) matches Ok(Instruction::Fp(i)) && i.rounding_mode == m);
            &&& f7 == 0x00 ==> is(FloatFunct::AddSingle)
            &&& f7 == 0x01 ==> is(FloatFunct::AddDouble)
            &&& f7 == 0x04 ==> is(FloatFunct::SubtractSingle)
            &&& f7 == 0x05 ==> is(FloatFunct::SubtractDouble)
            &&& f7 == 0x08 ==> is(FloatFunct::MultiplySingle)
            &&& f7 == 0x09 ==> is(FloatFunct::MultiplyDouble)
            &&& f7 == 0x0c ==> is(FloatFunct::DivideSingle)
            &&& f7 == 0x0d ==> is(FloatFunct::DivideDouble)
            &&& f7 == 0x2c ==> is(FloatFunct::SquareRootSingle)
            &&& f7 == 0x2d ==> is(FloatFunct::SquareRootDouble)
            &&& f7 == 0x10 ==> is(FloatFunct::InjectSignSingle)
            &&& f7 == 0x11 ==> is(FloatFunct::InjectSignDouble)
            &&& f7 == 0x14 ==> is(FloatFunct::MinMaxSingle)
            &&& f7 == 0x15 ==> is(FloatFunct::MinMaxDouble)
            &&& f7 == 0x50 ==> is(FloatFunct::CompareSingle)
            &&& f7 == 0x51 ==> is(FloatFunct::CompareDouble)
            &&& f7 == 0x60 ==> is(FloatFunct::ConvertToWordSingle)
            &&& f7 == 0x61 ==> is(FloatFunct::ConvertToWordDouble)
            &&& f7 == 0x68 ==> is(FloatFunct::ConvertFromWordSingle)
            &&& f7 == 0x69 ==> is(FloatFunct::ConvertFromWordDouble)
            &&& f7 == 0x70 ==> is(FloatFunct::MoveToXSingle)
            &&& f7 == 0x71 ==> is(FloatFunct::ClassifyDouble)
            &&& f7 == 0x78 ==> is(FloatFunct::MoveFromXSingle)
            &&& f7 == 0x20 ==> is(FloatFunct::ConvertDoubleToSingle)
            &&& f7 == 0x21 ==> is(FloatFunct::ConvertSingleToDouble)
            &&& f3 == 0 ==> rm(RoundingMode::NearestTieToEven)
            &&& f3 == 1 ==> rm(RoundingMode::Zero)
            &&& f3 == 2 ==> rm(RoundingMode::Down)
            &&& f3 == 3 ==> rm(RoundingMode::Up)
            &&& f3 == 4 ==> rm(RoundingMode::NearestTieToMaxMagnitude)
            &&& f3 == 7 ==> rm(RoundingMode::Dynamic)
            &&& (f3 == 5 || f3 == 6) ==> spec_decode(w) is Err
        }),
{
}

} // verus!
