use rv::instr::{
    DecodeError, FloatFunct, FpWidth, I12, Imm12, ImmShift, Instruction, Int, IntImmediate,
    IntImmediateFunct, IntegerFunct, JumpAndLink, JumpAndLinkRegister, LoadFp, Register,
    RoundingMode, System, U, U20, U5, UType, I20, Fp,
};

fn reg(i: u32) -> Register {
    Register::new(i).unwrap()
}

#[test]
fn decodes_addi() {
    assert_eq!(
        Instruction::decode(0x00a0_0513),
        Ok(Instruction::IntImmediate(IntImmediate {
            dest: Register::a0(),
            funct: IntImmediateFunct::Imm12(Imm12::Add, I12::new(10).unwrap()),
            src: Register::zero(),
        }))
    );
}

#[test]
fn decodes_negative_immediate() {
    // addi sp, sp, -16
    assert_eq!(
        Instruction::decode(0xff01_0113),
        Ok(Instruction::IntImmediate(IntImmediate {
            dest: Register::sp(),
            funct: IntImmediateFunct::Imm12(Imm12::Add, I12::new(0xff0).unwrap()),
            src: Register::sp(),
        }))
    );
    assert_eq!(i16::from(I12::new(0xff0).unwrap()), -16);
}

#[test]
fn decodes_add_and_slli() {
    assert_eq!(
        Instruction::decode(0x00c5_8533),
        Ok(Instruction::Int(Int {
            dest: Register::a0(),
            funct: IntegerFunct::Add,
            src1: Register::a1(),
            src2: Register::a2(),
        }))
    );
    assert_eq!(
        Instruction::decode(0x0025_1593),
        Ok(Instruction::IntImmediate(IntImmediate {
            dest: Register::a1(),
            funct: IntImmediateFunct::ImmShift(ImmShift::ShiftLeft, U5::new(2).unwrap()),
            src: Register::a0(),
        }))
    );
}

#[test]
fn decodes_lui_jal_jalr_and_system() {
    assert_eq!(
        Instruction::decode(0x1234_5537),
        Ok(Instruction::U(U {
            type_: UType::LoadUpperImmediate,
            dest: Register::a0(),
            imm: U20::new(0x12345).unwrap(),
        }))
    );
    assert_eq!(
        Instruction::decode(0x0080_00ef),
        Ok(Instruction::JumpAndLink(JumpAndLink { dest: Register::ra(), offset: I20::new(4).unwrap() }))
    );
    assert_eq!(i32::from(I20::new(4).unwrap()), 8);
    assert_eq!(
        Instruction::decode(0x0000_8067),
        Ok(Instruction::JumpAndLinkRegister(JumpAndLinkRegister {
            dest: Register::zero(),
            base: Register::ra(),
            offset: I12::zero(),
        }))
    );
    assert_eq!(Instruction::decode(0x0000_0073), Ok(Instruction::System(System::Ecall)));
    assert_eq!(Instruction::decode(0x0010_0073), Ok(Instruction::System(System::Ebreak)));
}

#[test]
fn decodes_float_add() {
    // fadd.s fa0, fa1, fa2 (rm = dynamic)
    assert_eq!(
        Instruction::decode(0x00c5_f553),
        Ok(Instruction::Fp(Fp {
            rounding_mode: RoundingMode::Dynamic,
            funct: FloatFunct::AddSingle,
            dest: reg(10),
            src1: reg(11),
            src2: reg(12),
        }))
    );
}

#[test]
fn rejects_unknown_opcode() {
    assert_eq!(Instruction::decode(0x0000_007f), Err(DecodeError::UnknownOpcode));
}

#[test]
fn recognises_compressed_instructions() {
    assert!(Instruction::next_is_compressed(0x15));
    assert!(Instruction::next_is_compressed(0x02));
    assert!(!Instruction::next_is_compressed(0x13));
    assert_eq!(Instruction::decode_compressed(0x0013), Err(DecodeError::NotCompressed));
}

#[test]
fn decodes_compressed_li_mv_ret_ebreak() {
    assert_eq!(
        Instruction::decode_compressed(0x4515),
        Ok(Instruction::IntImmediate(IntImmediate {
            dest: Register::a0(),
            funct: IntImmediateFunct::Imm12(Imm12::Add, I12::new(5).unwrap()),
            src: Register::zero(),
        }))
    );
    assert_eq!(
        Instruction::decode_compressed(0x852e),
        Ok(Instruction::Int(Int {
            dest: Register::a0(),
            funct: IntegerFunct::Add,
            src1: Register::zero(),
            src2: Register::a1(),
        }))
    );
    assert_eq!(
        Instruction::decode_compressed(0x8082),
        Ok(Instruction::JumpAndLinkRegister(JumpAndLinkRegister {
            dest: Register::zero(),
            base: Register::ra(),
            offset: I12::zero(),
        }))
    );
    assert_eq!(Instruction::decode_compressed(0x9002), Ok(Instruction::System(System::Ebreak)));
}

#[test]
fn compressed_mv_matches_its_expansion() {
    // c.mv a0, a1 is add a0, x0, a1
    let expanded = (11 << 20) | (10 << 7) | 0x33;
    assert_eq!(Instruction::decode_compressed(0x852e), Instruction::decode(expanded));
    // c.li a0, 5 is addi a0, x0, 5
    assert_eq!(Instruction::decode_compressed(0x4515), Instruction::decode(0x0050_0513));
    // c.add a0, a1 is add a0, a0, a1
    assert_eq!(Instruction::decode_compressed(0x952e), Instruction::decode(0x00b5_0533));
    // c.jalr a0 is jalr ra, 0(a0); c.jr ra is jalr x0, 0(ra)
    assert_eq!(Instruction::decode_compressed(0x9502), Instruction::decode(0x0005_00e7));
    assert_eq!(Instruction::decode_compressed(0x8082), Instruction::decode(0x0000_8067));
    // c.ebreak is ebreak
    assert_eq!(Instruction::decode_compressed(0x9002), Instruction::decode(0x0010_0073));
    // the reserved encoding with no register at all is refused
    assert_eq!(Instruction::decode_compressed(0x8002), Err(DecodeError::UnknownOpcode));
}

#[test]
fn decodes_compressed_fld() {
    // c.fld fs0, 0(a0): quadrant 0, funct3 001
    let h: u16 = 0x2100;
    assert_eq!(
        Instruction::decode_compressed(h),
        Ok(Instruction::LoadFp(LoadFp {
            dest: reg(8),
            width: FpWidth::Double,
            base: Register::a0(),
            offset: I12::zero(),
        }))
    );
}

#[test]
fn field_constructors_check_ranges() {
    assert_eq!(Register::new(32), Err(DecodeError::RegisterOutOfRange));
    assert_eq!(u8::from(Register::new(31).unwrap()), 31);
    assert_eq!(Register::new_rvc(3).map(u8::from), Ok(11));
    assert_eq!(Register::new_rvc(8), Err(DecodeError::RegisterOutOfRange));
    assert_eq!(U5::new(32), Err(DecodeError::U5OutOfRange));
    assert_eq!(I12::new(0x1000), Err(DecodeError::I12OutOfRange));
    assert_eq!(i16::from(I12::new(0x7ff).unwrap()), 2047);
    assert_eq!(i16::from(I12::new(0x800).unwrap()), -2048);
    assert_eq!(i16::from(I12::new_13(0x1ffe).unwrap()), -2);
    assert_eq!(i16::from(I12::new_6(0x3f).unwrap()), -1);
    assert_eq!(i16::from(I12::new_9(0x100).unwrap()), -256);
    assert_eq!(i16::from(I12::new_10(0x3f0).unwrap()), -16);
    assert_eq!(U20::new(0x100000), Err(DecodeError::U20OutOfRange));
    assert_eq!(u32::from(U20::new_i6(0x3f).unwrap()), 0xfffff);
    assert_eq!(I20::new(0x200000), Err(DecodeError::I20OutOfRange));
}

#[test]
fn i12_raw_bits_round_trip() {
    for v in [0u32, 1, 0x7ff, 0x800, 0xfff, 0x123] {
        assert_eq!(u32::from(u16::from(I12::new(v).unwrap())), v);
    }
}
