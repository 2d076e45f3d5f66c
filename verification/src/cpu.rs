use vstd::prelude::*;

pub mod memory;

verus! {

/// The bit pattern of the canonical single-precision NaN.
pub const CANONICAL_NAN_F32_BITS: u32 = 0x7fc00000;

/// The bit pattern of the canonical double-precision NaN.
pub const CANONICAL_NAN_F64_BITS: u64 = 0x7ff8000000000000;

/// The upper half of a floating-point register that holds a single: all ones.
pub const BOX_MASK: u64 = 0xffffffff00000000;

/// A floating-point register, held as the 64 bits of a double.  A single
/// is kept NaN-boxed: its bits in the lower half, the upper half all ones.
#[derive(Clone, Copy, PartialEq, Eq, Structural)]
pub struct FRegister {
    pub bits: u64,
}

/// Whether `bits` hold a NaN-boxed single.
pub open spec fn is_boxed(bits: u64) -> bool {
    bits / 0x1_0000_0000 == 0xffffffff
}

impl FRegister {
    /// The register's bits as a double.
    pub fn read_f64_bits(self) -> (r: u64)
        ensures
            r == self.bits,
    {
        self.bits
    }

    /// The bits of the single the register holds: its lower half if it is
    /// NaN-boxed, the canonical NaN otherwise.
    pub fn read_f32_bits(self) -> (r: u32)
        ensures
            r == (if is_boxed(self.bits) {
                (self.bits % 0x1_0000_0000) as u32
            } else {
                CANONICAL_NAN_F32_BITS
            }),
    {
        let bits = self.bits;
        assert((bits & BOX_MASK == BOX_MASK) == (bits / 0x1_0000_0000 == 0xffffffff))
            by (bit_vector);
        assert(bits as u32 == bits % 0x1_0000_0000) by (bit_vector);
        if bits & BOX_MASK == BOX_MASK {
            bits as u32
        } else {
            CANONICAL_NAN_F32_BITS
        }
    }

    /// A register holding the double with bits `value`.
    pub fn write_f64_bits(value: u64) -> (r: FRegister)
        ensures
            r.bits == value,
    {
        FRegister { bits: value }
    }

    /// A register holding the single with bits `value`, NaN-boxed.
    pub fn write_f32_bits(value: u32) -> (r: FRegister)
        ensures
            r.bits == BOX_MASK + value,
    {
        assert(BOX_MASK | (value as u64) == 0xffffffff00000000u64 + value) by (bit_vector);
        FRegister { bits: BOX_MASK | value as u64 }
    }
}

/// Writing a single into a register and reading it back gives its bits.
pub proof fn law_f32_roundtrip(value: u32)
    ensures
        ({
            let bits = (BOX_MASK + value) as u64;
            is_boxed(bits) && (bits % 0x1_0000_0000) as u32 == value
        }),
{
}

} // verus!
