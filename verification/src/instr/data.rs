use vstd::prelude::*;
use vstd::arithmetic::power2::pow2;

verus! {

/// Why decoding a field or an instruction failed.
#[derive(Debug, Clone, Copy, PartialEq, Eq, Structural)]
pub enum DecodeError {
    RegisterOutOfRange,
    LoadWidthOutOfRange,
    StoreWidthOutOfRange,
    FpWidthOutOfRange,
    U5OutOfRange,
    I12OutOfRange,
    U20OutOfRange,
    I20OutOfRange,
    UnknownImmediateOp,
    UnknownOp,
    UnknownBranchType,
    UnknownFloatFunct,
    UnknownRoundingMode,
    UnknownCsrFunct,
    UnknownAmoFunct,
    UnknownOpcode,
    UnknownSystem,
    UnknownFloatWidth,
    NotCompressed,
}

/// The value of the `bits`-bit two's complement number whose raw bits are `v`.
pub open spec fn sign_extend(v: int, bits: nat) -> int {
    if v < pow2((bits - 1) as nat) {
        v
    } else {
        v - pow2(bits)
    }
}

/// One of the 32 integer (or floating-point) registers.
#[derive(Debug, Clone, Copy, PartialEq, Eq, Structural)]
pub struct Register(u8);

impl View for Register {
    type V = u8;

    closed spec fn view(&self) -> u8 {
        self.0
    }
}

impl Register {
    #[verifier::type_invariant]
    spec fn wf(self) -> bool {
        self.0 < 32
    }

    /// The register numbered `i`.
    pub closed spec fn from_index(i: u32) -> Register {
        Register(i as u8)
    }

    pub broadcast proof fn lemma_from_index(i: u32)
        requires
            i < 32,
        ensures
            (#[trigger] Register::from_index(i))@ == i,
    {
    }

    /// Two registers with the same number are the same register.
    pub broadcast proof fn lemma_view_injective(a: Register, b: Register)
        ensures
            #[trigger] a@ == #[trigger] b@ <==> a == b,
    {
    }

    pub open spec fn spec_new(v: u32) -> Result<Register, DecodeError> {
        if v < 32 {
            Ok(Register::from_index(v))
        } else {
            Err(DecodeError::RegisterOutOfRange)
        }
    }

    pub open spec fn spec_new_rvc(v: u16) -> Result<Register, DecodeError> {
        if v < 8 {
            Ok(Register::from_index((v + 8) as u32))
        } else {
            Err(DecodeError::RegisterOutOfRange)
        }
    }

    /// Register x0 (zero).
    pub fn zero() -> (r: Register)
        ensures
            r@ == 0,
    {
        Register(0)
    }

    /// Register x1 (ra).
    pub fn ra() -> (r: Register)
        ensures
            r@ == 1,
    {
        Register(1)
    }

    /// Register x2 (sp).
    pub fn sp() -> (r: Register)
        ensures
            r@ == 2,
    {
        Register(2)
    }

    /// Register x3 (gp).
    pub fn gp() -> (r: Register)
        ensures
            r@ == 3,
    {
        Register(3)
    }

    /// Register x4 (tp).
    pub fn tp() -> (r: Register)
        ensures
            r@ == 4,
    {
        Register(4)
    }

    /// Register x5 (t0).
    pub fn t0() -> (r: Register)
        ensures
            r@ == 5,
    {
        Register(5)
    }

    /// Register x6 (t1).
    pub fn t1() -> (r: Register)
        ensures
            r@ == 6,
    {
        Register(6)
    }

    /// Register x7 (t2).
    pub fn t2() -> (r: Register)
        ensures
            r@ == 7,
    {
        Register(7)
    }

    /// Register x8 (s0).
    pub fn s0() -> (r: Register)
        ensures
            r@ == 8,
    {
        Register(8)
    }

    /// Register x9 (s1).
    pub fn s1() -> (r: Register)
        ensures
            r@ == 9,
    {
        Register(9)
    }

    /// Register x10 (a0).
    pub fn a0() -> (r: Register)
        ensures
            r@ == 10,
    {
        Register(10)
    }

    /// Register x11 (a1).
    pub fn a1() -> (r: Register)
        ensures
            r@ == 11,
    {
        Register(11)
    }

    /// Register x12 (a2).
    pub fn a2() -> (r: Register)
        ensures
            r@ == 12,
    {
        Register(12)
    }

    /// Register x13 (a3).
    pub fn a3() -> (r: Register)
        ensures
            r@ == 13,
    {
        Register(13)
    }

    /// Register x14 (a4).
    pub fn a4() -> (r: Register)
        ensures
            r@ == 14,
    {
        Register(14)
    }

    /// Register x15 (a5).
    pub fn a5() -> (r: Register)
        ensures
            r@ == 15,
    {
        Register(15)
    }

    /// Register x16 (a6).
    pub fn a6() -> (r: Register)
        ensures
            r@ == 16,
    {
        Register(16)
    }

    /// Register x17 (a7).
    pub fn a7() -> (r: Register)
        ensures
            r@ == 17,
    {
        Register(17)
    }


    /// The register numbered `v`; fails unless `v < 32`.
    pub fn new(v: u32) -> (r: Result<Register, DecodeError>)
        ensures
            r == Register::spec_new(v),
            r is Ok <==> v < 32,
            r matches Ok(reg) ==> reg@ == v,
    {
        if v < 32 {
            Ok(Register(v as u8))
        } else {
            Err(DecodeError::RegisterOutOfRange)
        }
    }

    /// One of the eight registers x8..x15 that compressed instructions
    /// address with three bits; fails unless `v < 8`.
    pub fn new_rvc(v: u16) -> (r: Result<Register, DecodeError>)
        ensures
            r == Register::spec_new_rvc(v),
            r is Ok <==> v < 8,
            r matches Ok(reg) ==> reg@ == v + 8,
    {
        if v < 8 {
            Ok(Register(v as u8 + 8))
        } else {
            Err(DecodeError::RegisterOutOfRange)
        }
    }

    /// The register's number, below 32.
    pub fn index(self) -> (r: usize)
        ensures
            r == self@,
            r < 32,
    {
        proof {
            use_type_invariant(&self);
        }
        self.0 as usize
    }
}

impl From<Register> for u8 {
    fn from(value: Register) -> (r: u8) {
        value.0
    }
}

impl vstd::std_specs::convert::FromSpecImpl<Register> for u8 {
    open spec fn obeys_from_spec() -> bool {
        true
    }

    open spec fn from_spec(v: Register) -> u8 {
        v@
    }
}

impl From<Register> for usize {
    fn from(value: Register) -> (r: usize) {
        value.0 as usize
    }
}

impl vstd::std_specs::convert::FromSpecImpl<Register> for usize {
    open spec fn obeys_from_spec() -> bool {
        true
    }

    open spec fn from_spec(v: Register) -> usize {
        v@ as usize
    }
}

/// Width and signedness of an integer load.
#[derive(Debug, Clone, Copy, PartialEq, Eq, Structural)]
pub enum LoadWidth {
    Byte,
    Half,
    Word,
    ByteUnsigned,
    HalfUnsigned,
}

/// Width of an integer store.
#[derive(Debug, Clone, Copy, PartialEq, Eq, Structural)]
pub enum StoreWidth {
    Byte,
    Half,
    Word,
}

impl LoadWidth {
    pub open spec fn spec_new(v: u32) -> Result<LoadWidth, DecodeError> {
        if v == 0 {
            Ok(LoadWidth::Byte)
        } else if v == 1 {
            Ok(LoadWidth::Half)
        } else if v == 2 {
            Ok(LoadWidth::Word)
        } else if v == 4 {
            Ok(LoadWidth::ByteUnsigned)
        } else if v == 5 {
            Ok(LoadWidth::HalfUnsigned)
        } else {
            Err(DecodeError::LoadWidthOutOfRange)
        }
    }

    /// The load width that the `funct3` field `v` encodes.
    pub fn new(v: u32) -> (r: Result<LoadWidth, DecodeError>)
        ensures
            r == LoadWidth::spec_new(v),
    {
        match v {
            0 => Ok(LoadWidth::Byte),
            1 => Ok(LoadWidth::Half),
            2 => Ok(LoadWidth::Word),
            4 => Ok(LoadWidth::ByteUnsigned),
            5 => Ok(LoadWidth::HalfUnsigned),
            _ => Err(DecodeError::LoadWidthOutOfRange),
        }
    }
}

impl StoreWidth {
    pub open spec fn spec_new(v: u32) -> Result<StoreWidth, DecodeError> {
        if v == 0 {
            Ok(StoreWidth::Byte)
        } else if v == 1 {
            Ok(StoreWidth::Half)
        } else if v == 2 {
            Ok(StoreWidth::Word)
        } else {
            Err(DecodeError::StoreWidthOutOfRange)
        }
    }

    /// The store width that the `funct3` field `v` encodes.
    pub fn new(v: u32) -> (r: Result<StoreWidth, DecodeError>)
        ensures
            r == StoreWidth::spec_new(v),
    {
        match v {
            0 => Ok(StoreWidth::Byte),
            1 => Ok(StoreWidth::Half),
            2 => Ok(StoreWidth::Word),
            _ => Err(DecodeError::StoreWidthOutOfRange),
        }
    }
}

/// Width of a floating-point load or store.
#[derive(Debug, Clone, Copy, PartialEq, Eq, Structural)]
pub enum FpWidth {
    Word,
    Double,
}

impl FpWidth {
    pub open spec fn spec_new(v: u32) -> Result<FpWidth, DecodeError> {
        if v == 2 {
            Ok(FpWidth::Word)
        } else if v == 3 {
            Ok(FpWidth::Double)
        } else {
            Err(DecodeError::FpWidthOutOfRange)
        }
    }

    /// The floating-point width that the `funct3` field `v` encodes.
    pub fn new(v: u32) -> (r: Result<FpWidth, DecodeError>)
        ensures
            r == FpWidth::spec_new(v),
    {
        match v {
            2 => Ok(FpWidth::Word),
            3 => Ok(FpWidth::Double),
            _ => Err(DecodeError::FpWidthOutOfRange),
        }
    }
}

/// An unsigned 5-bit quantity (a shift amount).
#[derive(Debug, Clone, Copy, PartialEq, Eq, Structural)]
pub struct U5(u8);

impl View for U5 {
    type V = u8;

    closed spec fn view(&self) -> u8 {
        self.0
    }
}

impl U5 {
    #[verifier::type_invariant]
    spec fn wf(self) -> bool {
        self.0 < 32
    }

    pub closed spec fn from_value(v: u32) -> U5 {
        U5(v as u8)
    }

    pub broadcast proof fn lemma_from_value(v: u32)
        requires
            v < 32,
        ensures
            (#[trigger] U5::from_value(v))@ == v,
    {
    }

    pub open spec fn spec_new(v: u32) -> Result<U5, DecodeError> {
        if v < 32 {
            Ok(U5::from_value(v))
        } else {
            Err(DecodeError::U5OutOfRange)
        }
    }

    /// `v` as a 5-bit quantity; fails unless `v < 32`.
    pub fn new(v: u32) -> (r: Result<U5, DecodeError>)
        ensures
            r == U5::spec_new(v),
            r is Ok <==> v < 32,
            r matches Ok(u) ==> u@ == v,
    {
        if v < 0x20 {
            Ok(U5(v as u8))
        } else {
            Err(DecodeError::U5OutOfRange)
        }
    }
}

impl From<U5> for u8 {
    fn from(value: U5) -> (r: u8)
        ensures
            r < 32,
    {
        proof {
            use_type_invariant(&value);
        }
        value.0
    }
}

impl vstd::std_specs::convert::FromSpecImpl<U5> for u8 {
    open spec fn obeys_from_spec() -> bool {
        true
    }

    open spec fn from_spec(v: U5) -> u8 {
        v@
    }
}

/// A signed immediate, sign-extended from the width it was encoded in
/// (12 bits, or 13 for branch offsets, or fewer for compressed forms).
#[derive(Debug, Clone, Copy, PartialEq, Eq, Structural)]
pub struct I12(i16);

impl View for I12 {
    type V = i16;

    closed spec fn view(&self) -> i16 {
        self.0
    }
}

proof fn lemma_sext_values()
    ensures
        pow2(5) == 32,
        pow2(6) == 64,
        pow2(8) == 256,
        pow2(9) == 512,
        pow2(10) == 1024,
        pow2(11) == 2048,
        pow2(12) == 4096,
        pow2(13) == 8192,
        pow2(19) == 0x80000,
        pow2(20) == 0x100000,
{
    vstd::arithmetic::power2::lemma2_to64();
}

impl I12 {
    pub closed spec fn from_value(v: int) -> I12 {
        I12(v as i16)
    }

    /// Two immediates with the same value are the same immediate.
    pub broadcast proof fn lemma_view_injective(a: I12, b: I12)
        ensures
            #[trigger] a@ == #[trigger] b@ <==> a == b,
    {
    }

    pub broadcast proof fn lemma_from_value(v: int)
        requires
            -0x8000 <= v < 0x8000,
        ensures
            (#[trigger] I12::from_value(v))@ == v,
    {
    }

    /// The low 12 bits of the two's complement representation.
    pub open spec fn raw_bits(self) -> u16 {
        (self@ as u16) & 0xfff
    }

    pub open spec fn spec_new(v: u32) -> Result<I12, DecodeError> {
        if v < 0x1000 {
            Ok(I12::from_value(sign_extend(v as int, 12)))
        } else {
            Err(DecodeError::I12OutOfRange)
        }
    }

    pub open spec fn spec_new_13(v: u32) -> Result<I12, DecodeError> {
        if v < 0x2000 {
            Ok(I12::from_value(sign_extend(v as int, 13)))
        } else {
            Err(DecodeError::I12OutOfRange)
        }
    }

    pub open spec fn spec_new_6(v: u16) -> Result<I12, DecodeError> {
        if v < 0x40 {
            Ok(I12::from_value(sign_extend(v as int, 6)))
        } else {
            Err(DecodeError::I12OutOfRange)
        }
    }

    pub open spec fn spec_new_9(v: u16) -> Result<I12, DecodeError> {
        if v < 0x200 {
            Ok(I12::from_value(sign_extend(v as int, 9)))
        } else {
            Err(DecodeError::I12OutOfRange)
        }
    }

    pub open spec fn spec_new_10(v: u16) -> Result<I12, DecodeError> {
        if v < 0x400 {
            Ok(I12::from_value(sign_extend(v as int, 10)))
        } else {
            Err(DecodeError::I12OutOfRange)
        }
    }

    /// Decoding 12 raw bits and taking the raw bits back gives them
    /// unchanged.
    pub proof fn law_raw_bits_roundtrip(v: u32)
        requires
            v < 0x1000,
        ensures
            I12::spec_new(v) matches Ok(i) && i.raw_bits() == v,
    {
        lemma_sext_values();
        let x = sign_extend(v as int, 12);
        assert(x == (if v < 0x800 { v as int } else { v as int - 0x1000 }));
        assert(I12::from_value(x)@ == x);
        assert(v < 0x1000 ==> (((if v < 0x800 { v as int } else { v as int - 0x1000 }) as i16)
            as u16) & 0xfff == v) by (bit_vector);
    }

    /// The immediate zero.
    pub fn zero() -> (r: I12)
        ensures
            r@ == 0,
    {
        I12(0)
    }

    /// The 12-bit two's complement number with raw bits `v`; fails unless
    /// `v < 2^12`.
    pub fn new(v: u32) -> (r: Result<I12, DecodeError>)
        ensures
            r == I12::spec_new(v),
            r is Ok <==> v < 0x1000,
            r matches Ok(i) ==> i@ == sign_extend(v as int, 12),
    {
        proof {
            lemma_sext_values();
        }
        if v < 0x1000 {
            let x = ((v << 4) as i16) >> 4;
            assert(v < 0x1000 ==> (((v << 4) as i16) >> 4) == (if v < 0x800 { v as int } else { (
            v as int) - 0x1000 })) by (bit_vector);
            Ok(I12(x))
        } else {
            Err(DecodeError::I12OutOfRange)
        }
    }

    /// The 13-bit two's complement number with raw bits `v`; fails unless
    /// `v < 2^13`.
    pub fn new_13(v: u32) -> (r: Result<I12, DecodeError>)
        ensures
            r == I12::spec_new_13(v),
            r is Ok <==> v < 0x2000,
            r matches Ok(i) ==> i@ == sign_extend(v as int, 13),
    {
        proof {
            lemma_sext_values();
        }
        if v < 0x2000 {
            let x = ((v << 3) as i16) >> 3;
            assert(v < 0x2000 ==> (((v << 3) as i16) >> 3) == (if v < 0x1000 { v as int } else { (
            v as int) - 0x2000 })) by (bit_vector);
            Ok(I12(x))
        } else {
            Err(DecodeError::I12OutOfRange)
        }
    }

    /// The 6-bit two's complement number with raw bits `v`; fails unless
    /// `v < 2^6`.
    pub fn new_6(v: u16) -> (r: Result<I12, DecodeError>)
        ensures
            r == I12::spec_new_6(v),
            r is Ok <==> v < 0x40,
            r matches Ok(i) ==> i@ == sign_extend(v as int, 6),
    {
        proof {
            lemma_sext_values();
        }
        if v < 0x40 {
            let x = ((v << 10) as i16) >> 10;
            assert(v < 0x40 ==> (((v << 10) as i16) >> 10) == (if v < 0x20 { v as int } else { (
            v as int) - 0x40 })) by (bit_vector);
            Ok(I12(x))
        } else {
            Err(DecodeError::I12OutOfRange)
        }
    }

    /// The 9-bit two's complement number with raw bits `v`; fails unless
    /// `v < 2^9`.
    pub fn new_9(v: u16) -> (r: Result<I12, DecodeError>)
        ensures
            r == I12::spec_new_9(v),
            r is Ok <==> v < 0x200,
            r matches Ok(i) ==> i@ == sign_extend(v as int, 9),
    {
        proof {
            lemma_sext_values();
        }
        if v < 0x200 {
            let x = ((v << 7) as i16) >> 7;
            assert(v < 0x200 ==> (((v << 7) as i16) >> 7) == (if v < 0x100 { v as int } else { (
            v as int) - 0x200 })) by (bit_vector);
            Ok(I12(x))
        } else {
            Err(DecodeError::I12OutOfRange)
        }
    }

    /// The 10-bit two's complement number with raw bits `v`; fails unless
    /// `v < 2^10`.
    pub fn new_10(v: u16) -> (r: Result<I12, DecodeError>)
        ensures
            r == I12::spec_new_10(v),
            r is Ok <==> v < 0x400,
            r matches Ok(i) ==> i@ == sign_extend(v as int, 10),
    {
        proof {
            lemma_sext_values();
        }
        if v < 0x400 {
            let x = ((v << 6) as i16) >> 6;
            assert(v < 0x400 ==> (((v << 6) as i16) >> 6) == (if v < 0x200 { v as int } else { (
            v as int) - 0x400 })) by (bit_vector);
            Ok(I12(x))
        } else {
            Err(DecodeError::I12OutOfRange)
        }
    }
}

impl From<I12> for u16 {
    fn from(value: I12) -> (r: u16) {
        value.0 as u16 & 0xfff
    }
}

impl vstd::std_specs::convert::FromSpecImpl<I12> for u16 {
    open spec fn obeys_from_spec() -> bool {
        true
    }

    open spec fn from_spec(v: I12) -> u16 {
        v.raw_bits()
    }
}

impl From<I12> for i16 {
    fn from(value: I12) -> (r: i16) {
        value.0
    }
}

impl vstd::std_specs::convert::FromSpecImpl<I12> for i16 {
    open spec fn obeys_from_spec() -> bool {
        true
    }

    open spec fn from_spec(v: I12) -> i16 {
        v@
    }
}

impl From<I12> for i32 {
    fn from(value: I12) -> (r: i32) {
        value.0 as i32
    }
}

impl vstd::std_specs::convert::FromSpecImpl<I12> for i32 {
    open spec fn obeys_from_spec() -> bool {
        true
    }

    open spec fn from_spec(v: I12) -> i32 {
        v@ as i32
    }
}

/// An unsigned 20-bit upper immediate.
#[derive(Debug, Clone, Copy, PartialEq, Eq, Structural)]
pub struct U20(u32);

impl View for U20 {
    type V = u32;

    closed spec fn view(&self) -> u32 {
        self.0
    }
}

impl U20 {
    #[verifier::type_invariant]
    spec fn wf(self) -> bool {
        self.0 < 0x100000
    }

    pub closed spec fn from_value(v: u32) -> U20 {
        U20(v)
    }

    pub broadcast proof fn lemma_from_value(v: u32)
        ensures
            (#[trigger] U20::from_value(v))@ == v,
    {
    }

    pub open spec fn spec_new(v: u32) -> Result<U20, DecodeError> {
        if v < 0x100000 {
            Ok(U20::from_value(v))
        } else {
            Err(DecodeError::U20OutOfRange)
        }
    }

    /// The 20-bit pattern of the 6-bit two's complement number `v`,
    /// sign-extended to 20 bits.
    pub open spec fn spec_new_i6(v: u16) -> Result<U20, DecodeError> {
        if v < 0x40 {
            Ok(U20::from_value((if v < 0x20 { v as int } else { v + 0xfffc0 }) as u32))
        } else {
            Err(DecodeError::U20OutOfRange)
        }
    }

    /// `v` as a 20-bit quantity; fails unless `v < 2^20`.
    pub fn new(v: u32) -> (r: Result<U20, DecodeError>)
        ensures
            r == U20::spec_new(v),
            r is Ok <==> v < 0x100000,
            r matches Ok(u) ==> u@ == v,
    {
        if v < 0x100000 {
            Ok(U20(v))
        } else {
            Err(DecodeError::U20OutOfRange)
        }
    }

    /// The 6-bit two's complement number `v`, sign-extended to 20 bits;
    /// fails unless `v < 2^6`.
    pub fn new_i6(v: u16) -> (r: Result<U20, DecodeError>)
        ensures
            r == U20::spec_new_i6(v),
            r is Ok <==> v < 0x40,
            r matches Ok(u) ==> u@ < 0x100000 && u@ == (if v < 0x20 { v as int } else { v
                + 0xfffc0 }),
    {
        if v < 0x40 {
            let x = ((((v as u32) << 26) as i32 >> 26) as u32) & 0xFFFFF;
            assert(v < 0x40 ==> ((((v as u32) << 26) as i32 >> 26) as u32) & 0xFFFFF == (if v
                < 0x20 { v as int } else { (v as int) + 0xfffc0 })) by (bit_vector);
            Ok(U20(x))
        } else {
            Err(DecodeError::U20OutOfRange)
        }
    }
}

impl From<U20> for u32 {
    fn from(value: U20) -> (r: u32)
        ensures
            r < 0x100000,
    {
        proof {
            use_type_invariant(&value);
        }
        value.0
    }
}

impl vstd::std_specs::convert::FromSpecImpl<U20> for u32 {
    open spec fn obeys_from_spec() -> bool {
        true
    }

    open spec fn from_spec(v: U20) -> u32 {
        v@
    }
}

/// A signed jump offset: an encoded count of half-words, sign-extended and
/// doubled to a byte offset.
#[derive(Debug, Clone, Copy, PartialEq, Eq, Structural)]
pub struct I20(i32);

impl View for I20 {
    type V = i32;

    closed spec fn view(&self) -> i32 {
        self.0
    }
}

impl I20 {
    pub closed spec fn from_value(v: int) -> I20 {
        I20(v as i32)
    }

    pub broadcast proof fn lemma_from_value(v: int)
        requires
            -0x8000_0000 <= v < 0x8000_0000,
        ensures
            (#[trigger] I20::from_value(v))@ == v,
    {
    }

    pub open spec fn spec_new(v: u32) -> Result<I20, DecodeError> {
        if v < 0x100000 {
            Ok(I20::from_value(2 * sign_extend(v as int, 20)))
        } else {
            Err(DecodeError::I20OutOfRange)
        }
    }

    pub open spec fn spec_new_11(v: u16) -> Result<I20, DecodeError> {
        if v < 0x800 {
            Ok(I20::from_value(2 * sign_extend(v as int, 11)))
        } else {
            Err(DecodeError::I20OutOfRange)
        }
    }

    /// The byte offset `2 * x`, where `x` is the 20-bit two's complement
    /// number with raw bits `v`; fails unless `v < 2^20`.
    pub fn new(v: u32) -> (r: Result<I20, DecodeError>)
        ensures
            r == I20::spec_new(v),
            r is Ok <==> v < 0x100000,
            r matches Ok(i) ==> i@ == 2 * sign_extend(v as int, 20),
    {
        proof {
            lemma_sext_values();
        }
        if v < 0x100000 {
            let val = ((v << 12) as i32) >> 11;
            assert(v < 0x100000 ==> (((v << 12) as i32) >> 11) == (if v < 0x80000 { 2 * (
            v as int) } else { 2 * ((v as int) - 0x100000) })) by (bit_vector);
            Ok(I20(val))
        } else {
            Err(DecodeError::I20OutOfRange)
        }
    }

    /// The byte offset `2 * x`, where `x` is the 11-bit two's complement
    /// number with raw bits `v`; fails unless `v < 2^11`.
    pub fn new_11(v: u16) -> (r: Result<I20, DecodeError>)
        ensures
            r == I20::spec_new_11(v),
            r is Ok <==> v < 0x800,
            r matches Ok(i) ==> i@ == 2 * sign_extend(v as int, 11),
    {
        proof {
            lemma_sext_values();
        }
        if v < 0x800 {
            let val = (((v as u32) << 21) as i32) >> 20;
            assert(v < 0x800 ==> ((((v as u32) << 21) as i32) >> 20) == (if v < 0x400 { 2 * (
            v as int) } else { 2 * ((v as int) - 0x800) })) by (bit_vector);
            Ok(I20(val))
        } else {
            Err(DecodeError::I20OutOfRange)
        }
    }
}

impl From<I20> for i32 {
    fn from(value: I20) -> (r: i32) {
        value.0
    }
}

impl vstd::std_specs::convert::FromSpecImpl<I20> for i32 {
    open spec fn obeys_from_spec() -> bool {
        true
    }

    open spec fn from_spec(v: I20) -> i32 {
        v@
    }
}

/// Register-immediate operations whose operand is a 12-bit immediate.
#[derive(Debug, Clone, Copy, PartialEq, Eq, Structural)]
pub enum Imm12 {
    Add,
    SetLessThan,
    SetLessThanUnsigned,
    Xor,
    Or,
    And,
}

/// Register-immediate shifts.
#[derive(Debug, Clone, Copy, PartialEq, Eq, Structural)]
pub enum ImmShift {
    ShiftLeft,
    ShiftRightLogical,
    ShiftRightArithmetic,
}

/// The operation of an OP-IMM instruction together with its operand.
#[derive(Debug, Clone, Copy, PartialEq, Eq, Structural)]
pub enum IntImmediateFunct {
    Imm12(Imm12, I12),
    ImmShift(ImmShift, U5),
}

impl IntImmediateFunct {
    pub open spec fn spec_new(v: u32, imm: I12) -> Result<IntImmediateFunct, DecodeError> {
        let bits = imm.raw_bits();
        if v == 0 {
            Ok(IntImmediateFunct::Imm12(Imm12::Add, imm))
        } else if v == 2 {
            Ok(IntImmediateFunct::Imm12(Imm12::SetLessThan, imm))
        } else if v == 3 {
            Ok(IntImmediateFunct::Imm12(Imm12::SetLessThanUnsigned, imm))
        } else if v == 4 {
            Ok(IntImmediateFunct::Imm12(Imm12::Xor, imm))
        } else if v == 6 {
            Ok(IntImmediateFunct::Imm12(Imm12::Or, imm))
        } else if v == 7 {
            Ok(IntImmediateFunct::Imm12(Imm12::And, imm))
        } else if v == 1 && bits >> 5 == 0 {
            Ok(IntImmediateFunct::ImmShift(ImmShift::ShiftLeft, U5::from_value(bits as u32)))
        } else if v == 5 && bits >> 5 == 0 {
            Ok(
                IntImmediateFunct::ImmShift(
                    ImmShift::ShiftRightLogical,
                    U5::from_value(bits as u32),
                ),
            )
        } else if v == 5 && bits >> 5 == 0b100000 {
            Ok(
                IntImmediateFunct::ImmShift(
                    ImmShift::ShiftRightArithmetic,
                    U5::from_value((bits & 0b11111) as u32),
                ),
            )
        } else {
            Err(DecodeError::UnknownImmediateOp)
        }
    }

    /// The operation that `funct3` (`v`) and the immediate select: shifts
    /// take their amount from the low five bits and are told apart by the
    /// immediate's upper bits.
    pub fn new(v: u32, imm: I12) -> (r: Result<IntImmediateFunct, DecodeError>)
        ensures
            r == IntImmediateFunct::spec_new(v, imm),
    {
        let bits = u16::from(imm);
        proof {
            assert(bits >> 5 == 0 ==> bits < 32) by (bit_vector);
            assert((bits & 0b11111) < 32) by (bit_vector);
        }
        match v {
            0 => Ok(IntImmediateFunct::Imm12(Imm12::Add, imm)),
            2 => Ok(IntImmediateFunct::Imm12(Imm12::SetLessThan, imm)),
            3 => Ok(IntImmediateFunct::Imm12(Imm12::SetLessThanUnsigned, imm)),
            4 => Ok(IntImmediateFunct::Imm12(Imm12::Xor, imm)),
            6 => Ok(IntImmediateFunct::Imm12(Imm12::Or, imm)),
            7 => Ok(IntImmediateFunct::Imm12(Imm12::And, imm)),
            1 if bits >> 5 == 0 => {
                let n = U5::new(bits as u32)?;
                Ok(IntImmediateFunct::ImmShift(ImmShift::ShiftLeft, n))
            },
            5 if bits >> 5 == 0 => {
                let n = U5::new(bits as u32)?;
                Ok(IntImmediateFunct::ImmShift(ImmShift::ShiftRightLogical, n))
            },
            5 if bits >> 5 == 0b100000 => {
                let n = U5::new((bits & 0b11111) as u32)?;
                Ok(IntImmediateFunct::ImmShift(ImmShift::ShiftRightArithmetic, n))
            },
            _ => Err(DecodeError::UnknownImmediateOp),
        }
    }
}

/// The operation of an OP (register-register) instruction.
#[derive(Debug, Clone, Copy, PartialEq, Eq, Structural)]
pub enum IntegerFunct {
    Add,
    ShiftLeft,
    SetLessThan,
    SetLessThanUnsigned,
    Xor,
    ShiftRight,
    Or,
    And,
    Subtract,
    ShiftRightArithmetic,
    Multiply,
    MultiplyHalf,
    MultiplyHalfSignedUnsigned,
    MultiplyHalfUnsigned,
    Divide,
    DivideUnsigned,
    Remainder,
    RemainderUnsigned,
}

impl IntegerFunct {
    /// `v` holds `funct3` in bits 0..3 and `funct7` in bits 3..10.
    pub open spec fn spec_new(v: u32) -> Result<IntegerFunct, DecodeError> {
        if v == 0 {
            Ok(IntegerFunct::Add)
        } else if v == 1 {
            Ok(IntegerFunct::ShiftLeft)
        } else if v == 2 {
            Ok(IntegerFunct::SetLessThan)
        } else if v == 3 {
            Ok(IntegerFunct::SetLessThanUnsigned)
        } else if v == 4 {
            Ok(IntegerFunct::Xor)
        } else if v == 5 {
            Ok(IntegerFunct::ShiftRight)
        } else if v == 6 {
            Ok(IntegerFunct::Or)
        } else if v == 7 {
            Ok(IntegerFunct::And)
        } else if v == 0b100000000 {
            Ok(IntegerFunct::Subtract)
        } else if v == 0b100000101 {
            Ok(IntegerFunct::ShiftRightArithmetic)
        } else if v == 8 {
            Ok(IntegerFunct::Multiply)
        } else if v == 9 {
            Ok(IntegerFunct::MultiplyHalf)
        } else if v == 10 {
            Ok(IntegerFunct::MultiplyHalfSignedUnsigned)
        } else if v == 11 {
            Ok(IntegerFunct::MultiplyHalfUnsigned)
        } else if v == 12 {
            Ok(IntegerFunct::Divide)
        } else if v == 13 {
            Ok(IntegerFunct::DivideUnsigned)
        } else if v == 14 {
            Ok(IntegerFunct::Remainder)
        } else if v == 15 {
            Ok(IntegerFunct::RemainderUnsigned)
        } else {
            Err(DecodeError::UnknownOp)
        }
    }

    pub fn new(v: u32) -> (r: Result<IntegerFunct, DecodeError>)
        ensures
            r == IntegerFunct::spec_new(v),
    {
        match v {
            0 => Ok(IntegerFunct::Add),
            1 => Ok(IntegerFunct::ShiftLeft),
            2 => Ok(IntegerFunct::SetLessThan),
            3 => Ok(IntegerFunct::SetLessThanUnsigned),
            4 => Ok(IntegerFunct::Xor),
            5 => Ok(IntegerFunct::ShiftRight),
            6 => Ok(IntegerFunct::Or),
            7 => Ok(IntegerFunct::And),
            0b100000000 => Ok(IntegerFunct::Subtract),
            0b100000101 => Ok(IntegerFunct::ShiftRightArithmetic),
            8 => Ok(IntegerFunct::Multiply),
            9 => Ok(IntegerFunct::MultiplyHalf),
            10 => Ok(IntegerFunct::MultiplyHalfSignedUnsigned),
            11 => Ok(IntegerFunct::MultiplyHalfUnsigned),
            12 => Ok(IntegerFunct::Divide),
            13 => Ok(IntegerFunct::DivideUnsigned),
            14 => Ok(IntegerFunct::Remainder),
            15 => Ok(IntegerFunct::RemainderUnsigned),
            _ => Err(DecodeError::UnknownOp),
        }
    }
}

/// The comparison of a conditional branch.
#[derive(Debug, Clone, Copy, PartialEq, Eq, Structural)]
pub enum BranchType {
    Equal,
    NotEqual,
    LessThan,
    GreaterThanOrEqual,
    LessThanUnsigned,
    GreaterThanOrEqualUnsigned,
}

impl BranchType {
    pub open spec fn spec_new(v: u32) -> Result<BranchType, DecodeError> {
        if v == 0 {
            Ok(BranchType::Equal)
        } else if v == 1 {
            Ok(BranchType::NotEqual)
        } else if v == 4 {
            Ok(BranchType::LessThan)
        } else if v == 5 {
            Ok(BranchType::GreaterThanOrEqual)
        } else if v == 6 {
            Ok(BranchType::LessThanUnsigned)
        } else if v == 7 {
            Ok(BranchType::GreaterThanOrEqualUnsigned)
        } else {
            Err(DecodeError::UnknownBranchType)
        }
    }

    pub fn new(v: u32) -> (r: Result<BranchType, DecodeError>)
        ensures
            r == BranchType::spec_new(v),
    {
        match v {
            0 => Ok(BranchType::Equal),
            1 => Ok(BranchType::NotEqual),
            4 => Ok(BranchType::LessThan),
            5 => Ok(BranchType::GreaterThanOrEqual),
            6 => Ok(BranchType::LessThanUnsigned),
            7 => Ok(BranchType::GreaterThanOrEqualUnsigned),
            _ => Err(DecodeError::UnknownBranchType),
        }
    }
}

/// The operation of an OP-FP instruction (its `funct7` field).
#[derive(Debug, Clone, Copy, PartialEq, Eq, Structural)]
pub enum FloatFunct {
    AddSingle,
    SubtractSingle,
    MultiplySingle,
    DivideSingle,
    SquareRootSingle,
    InjectSignSingle,
    MinMaxSingle,
    ConvertToWordSingle,
    MoveToXSingle,
    CompareSingle,
    ConvertFromWordSingle,
    MoveFromXSingle,
    ConvertDoubleToSingle,
    ConvertSingleToDouble,
    AddDouble,
    SubtractDouble,
    MultiplyDouble,
    DivideDouble,
    SquareRootDouble,
    InjectSignDouble,
    MinMaxDouble,
    CompareDouble,
    ClassifyDouble,
    ConvertToWordDouble,
    ConvertFromWordDouble,
}

impl FloatFunct {
    pub open spec fn spec_new(v: u32) -> Result<FloatFunct, DecodeError> {
        if v == 0b0000000 {
            Ok(FloatFunct::AddSingle)
        } else if v == 0b0000100 {
            Ok(FloatFunct::SubtractSingle)
        } else if v == 0b0001000 {
            Ok(FloatFunct::MultiplySingle)
        } else if v == 0b0001100 {
            Ok(FloatFunct::DivideSingle)
        } else if v == 0b0101100 {
            Ok(FloatFunct::SquareRootSingle)
        } else if v == 0b0010000 {
            Ok(FloatFunct::InjectSignSingle)
        } else if v == 0b0010100 {
            Ok(FloatFunct::MinMaxSingle)
        } else if v == 0b1100000 {
            Ok(FloatFunct::ConvertToWordSingle)
        } else if v == 0b1110000 {
            Ok(FloatFunct::MoveToXSingle)
        } else if v == 0b1010000 {
            Ok(FloatFunct::CompareSingle)
        } else if v == 0b1101000 {
            Ok(FloatFunct::ConvertFromWordSingle)
        } else if v == 0b1111000 {
            Ok(FloatFunct::MoveFromXSingle)
        } else if v == 0b0100000 {
            Ok(FloatFunct::ConvertDoubleToSingle)
        } else if v == 0b0100001 {
            Ok(FloatFunct::ConvertSingleToDouble)
        } else if v == 0b0000001 {
            Ok(FloatFunct::AddDouble)
        } else if v == 0b0000101 {
            Ok(FloatFunct::SubtractDouble)
        } else if v == 0b0001001 {
            Ok(FloatFunct::MultiplyDouble)
        } else if v == 0b0001101 {
            Ok(FloatFunct::DivideDouble)
        } else if v == 0b0101101 {
            Ok(FloatFunct::SquareRootDouble)
        } else if v == 0b0010001 {
            Ok(FloatFunct::InjectSignDouble)
        } else if v == 0b0010101 {
            Ok(FloatFunct::MinMaxDouble)
        } else if v == 0b1010001 {
            Ok(FloatFunct::CompareDouble)
        } else if v == 0b1110001 {
            Ok(FloatFunct::ClassifyDouble)
        } else if v == 0b1100001 {
            Ok(FloatFunct::ConvertToWordDouble)
        } else if v == 0b1101001 {
            Ok(FloatFunct::ConvertFromWordDouble)
        } else {
            Err(DecodeError::UnknownFloatFunct)
        }
    }

    pub fn new(v: u32) -> (r: Result<FloatFunct, DecodeError>)
        ensures
            r == FloatFunct::spec_new(v),
    {
        match v {
            0b0000000 => Ok(FloatFunct::AddSingle),
            0b0000100 => Ok(FloatFunct::SubtractSingle),
            0b0001000 => Ok(FloatFunct::MultiplySingle),
            0b0001100 => Ok(FloatFunct::DivideSingle),
            0b0101100 => Ok(FloatFunct::SquareRootSingle),
            0b0010000 => Ok(FloatFunct::InjectSignSingle),
            0b0010100 => Ok(FloatFunct::MinMaxSingle),
            0b1100000 => Ok(FloatFunct::ConvertToWordSingle),
            0b1110000 => Ok(FloatFunct::MoveToXSingle),
            0b1010000 => Ok(FloatFunct::CompareSingle),
            0b1101000 => Ok(FloatFunct::ConvertFromWordSingle),
            0b1111000 => Ok(FloatFunct::MoveFromXSingle),
            0b0100000 => Ok(FloatFunct::ConvertDoubleToSingle),
            0b0100001 => Ok(FloatFunct::ConvertSingleToDouble),
            0b0000001 => Ok(FloatFunct::AddDouble),
            0b0000101 => Ok(FloatFunct::SubtractDouble),
            0b0001001 => Ok(FloatFunct::MultiplyDouble),
            0b0001101 => Ok(FloatFunct::DivideDouble),
            0b0101101 => Ok(FloatFunct::SquareRootDouble),
            0b0010001 => Ok(FloatFunct::InjectSignDouble),
            0b0010101 => Ok(FloatFunct::MinMaxDouble),
            0b1010001 => Ok(FloatFunct::CompareDouble),
            0b1110001 => Ok(FloatFunct::ClassifyDouble),
            0b1100001 => Ok(FloatFunct::ConvertToWordDouble),
            0b1101001 => Ok(FloatFunct::ConvertFromWordDouble),
            _ => Err(DecodeError::UnknownFloatFunct),
        }
    }
}

/// The rounding mode field of a floating-point instruction.
#[derive(Debug, Clone, Copy, PartialEq, Eq, Structural)]
pub enum RoundingMode {
    NearestTieToEven,
    Zero,
    Down,
    Up,
    NearestTieToMaxMagnitude,
    Dynamic,
}

impl RoundingMode {
    pub open spec fn spec_new(v: u32) -> Result<RoundingMode, DecodeError> {
        if v == 0 {
            Ok(RoundingMode::NearestTieToEven)
        } else if v == 1 {
            Ok(RoundingMode::Zero)
        } else if v == 2 {
            Ok(RoundingMode::Down)
        } else if v == 3 {
            Ok(RoundingMode::Up)
        } else if v == 4 {
            Ok(RoundingMode::NearestTieToMaxMagnitude)
        } else if v == 7 {
            Ok(RoundingMode::Dynamic)
        } else {
            Err(DecodeError::UnknownRoundingMode)
        }
    }

    pub fn new(v: u32) -> (r: Result<RoundingMode, DecodeError>)
        ensures
            r == RoundingMode::spec_new(v),
    {
        match v {
            0 => Ok(RoundingMode::NearestTieToEven),
            1 => Ok(RoundingMode::Zero),
            2 => Ok(RoundingMode::Down),
            3 => Ok(RoundingMode::Up),
            4 => Ok(RoundingMode::NearestTieToMaxMagnitude),
            7 => Ok(RoundingMode::Dynamic),
            _ => Err(DecodeError::UnknownRoundingMode),
        }
    }
}

/// The operation of a CSR instruction.
#[derive(Debug, Clone, Copy, PartialEq, Eq, Structural)]
pub enum CsrFunct {
    ReadWrite,
    ReadAndSetBits,
    ReadAndClearBits,
    ReadWriteImmediate,
    ReadAndSetBitsImmediate,
    ReadAndClearBitsImmediate,
}

impl CsrFunct {
    pub open spec fn spec_new(v: u32) -> Result<CsrFunct, DecodeError> {
        if v == 1 {
            Ok(CsrFunct::ReadWrite)
        } else if v == 2 {
            Ok(CsrFunct::ReadAndSetBits)
        } else if v == 3 {
            Ok(CsrFunct::ReadAndClearBits)
        } else if v == 5 {
            Ok(CsrFunct::ReadWriteImmediate)
        } else if v == 6 {
            Ok(CsrFunct::ReadAndSetBitsImmediate)
        } else if v == 7 {
            Ok(CsrFunct::ReadAndClearBitsImmediate)
        } else {
            Err(DecodeError::UnknownCsrFunct)
        }
    }

    pub fn new(v: u32) -> (r: Result<CsrFunct, DecodeError>)
        ensures
            r == CsrFunct::spec_new(v),
    {
        match v {
            1 => Ok(CsrFunct::ReadWrite),
            2 => Ok(CsrFunct::ReadAndSetBits),
            3 => Ok(CsrFunct::ReadAndClearBits),
            5 => Ok(CsrFunct::ReadWriteImmediate),
            6 => Ok(CsrFunct::ReadAndSetBitsImmediate),
            7 => Ok(CsrFunct::ReadAndClearBitsImmediate),
            _ => Err(DecodeError::UnknownCsrFunct),
        }
    }
}

/// The operation of an atomic memory instruction (`funct5`).
#[derive(Debug, Clone, Copy, PartialEq, Eq, Structural)]
pub enum AmoFunct {
    Add,
    Swap,
    LoadReserved,
    StoreConditional,
    Xor,
    Or,
    And,
    Min,
    Max,
    MinUnsigned,
    MaxUnsigned,
}

impl AmoFunct {
    pub open spec fn spec_new(v: u32) -> Result<AmoFunct, DecodeError> {
        if v == 0 {
            Ok(AmoFunct::Add)
        } else if v == 1 {
            Ok(AmoFunct::Swap)
        } else if v == 2 {
            Ok(AmoFunct::LoadReserved)
        } else if v == 3 {
            Ok(AmoFunct::StoreConditional)
        } else if v == 4 {
            Ok(AmoFunct::Xor)
        } else if v == 8 {
            Ok(AmoFunct::Or)
        } else if v == 12 {
            Ok(AmoFunct::And)
        } else if v == 16 {
            Ok(AmoFunct::Min)
        } else if v == 20 {
            Ok(AmoFunct::Max)
        } else if v == 24 {
            Ok(AmoFunct::MinUnsigned)
        } else if v == 28 {
            Ok(AmoFunct::MaxUnsigned)
        } else {
            Err(DecodeError::UnknownAmoFunct)
        }
    }

    pub fn new(v: u32) -> (r: Result<AmoFunct, DecodeError>)
        ensures
            r == AmoFunct::spec_new(v),
    {
        match v {
            0 => Ok(AmoFunct::Add),
            1 => Ok(AmoFunct::Swap),
            2 => Ok(AmoFunct::LoadReserved),
            3 => Ok(AmoFunct::StoreConditional),
            4 => Ok(AmoFunct::Xor),
            8 => Ok(AmoFunct::Or),
            12 => Ok(AmoFunct::And),
            16 => Ok(AmoFunct::Min),
            20 => Ok(AmoFunct::Max),
            24 => Ok(AmoFunct::MinUnsigned),
            28 => Ok(AmoFunct::MaxUnsigned),
            _ => Err(DecodeError::UnknownAmoFunct),
        }
    }
}

} // verus!
