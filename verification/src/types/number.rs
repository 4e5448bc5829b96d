//! Numbers as the bit patterns of IEEE 754 double precision.
//!
//! The library never computes with a number. It stores one, hands it on, and
//! asks the few questions that the bit pattern answers: whether it is a NaN,
//! whether it is a zero, and whether two of them compare equal.

use vstd::prelude::*;

verus! {

/// The bit pattern of positive zero.
pub const ZERO_BITS: u64 = 0;

/// The bit pattern of one.
pub const ONE_BITS: u64 = 0x3ff0_0000_0000_0000;

/// The bit pattern of the quiet NaN that arithmetic yields by default.
pub const NAN_BITS: u64 = 0x7ff8_0000_0000_0000;

/// The eleven exponent bits of a pattern.
pub open spec fn exponent_of(bits: u64) -> u64 {
    (bits >> 52) & 0x7ff
}

/// The fifty-two fraction bits of a pattern.
pub open spec fn fraction_of(bits: u64) -> u64 {
    bits & 0x000f_ffff_ffff_ffff
}

/// A NaN has every exponent bit set and some fraction bit set.
pub open spec fn is_nan_bits(bits: u64) -> bool {
    exponent_of(bits) == 0x7ff && fraction_of(bits) != 0
}

/// A zero, of either sign, has no exponent bit and no fraction bit set.
pub open spec fn is_zero_bits(bits: u64) -> bool {
    exponent_of(bits) == 0 && fraction_of(bits) == 0
}

/// Equality as IEEE 754 has it: a NaN equals nothing, the two zeros equal
/// each other, and any other two numbers are equal when their bits are.
pub open spec fn ieee_eq(a: u64, b: u64) -> bool {
    !is_nan_bits(a) && !is_nan_bits(b) && (a == b || (is_zero_bits(a) && is_zero_bits(b)))
}

/// A double-precision number, held as its bit pattern.
#[derive(Clone, Copy, Debug)]
pub struct JsNumber {
    pub bits: u64,
}

impl JsNumber {
    /// The number with the given bit pattern.
    pub fn from_bits(bits: u64) -> (r: Self)
        ensures
            r.bits == bits,
    {
        JsNumber { bits }
    }

    /// The bit pattern of the number.
    pub fn to_bits(&self) -> (r: u64)
        ensures
            r == self.bits,
    {
        self.bits
    }

    /// Positive zero.
    pub fn zero() -> (r: Self)
        ensures
            r.bits == ZERO_BITS,
            is_zero_bits(r.bits),
    {
        assert(is_zero_bits(0u64)) by (bit_vector);
        JsNumber { bits: ZERO_BITS }
    }

    /// One.
    pub fn one() -> (r: Self)
        ensures
            r.bits == ONE_BITS,
    {
        JsNumber { bits: ONE_BITS }
    }

    /// A NaN.
    pub fn nan() -> (r: Self)
        ensures
            r.bits == NAN_BITS,
            is_nan_bits(r.bits),
    {
        assert(is_nan_bits(0x7ff8_0000_0000_0000u64)) by (bit_vector);
        JsNumber { bits: NAN_BITS }
    }

    /// Whether the number is a NaN.
    pub fn is_nan(&self) -> (r: bool)
        ensures
            r == is_nan_bits(self.bits),
    {
        let bits = self.bits;
        assert(((bits & 0x7fff_ffff_ffff_ffff) > 0x7ff0_0000_0000_0000) == (((bits >> 52) & 0x7ff)
            == 0x7ff && (bits & 0x000f_ffff_ffff_ffff) != 0)) by (bit_vector);
        (bits & 0x7fff_ffff_ffff_ffff) > 0x7ff0_0000_0000_0000
    }

    /// Whether the number is a zero, of either sign.
    pub fn is_zero(&self) -> (r: bool)
        ensures
            r == is_zero_bits(self.bits),
    {
        let bits = self.bits;
        assert(((bits & 0x7fff_ffff_ffff_ffff) == 0) == (((bits >> 52) & 0x7ff) == 0 && (bits
            & 0x000f_ffff_ffff_ffff) == 0)) by (bit_vector);
        (bits & 0x7fff_ffff_ffff_ffff) == 0
    }

    /// Whether the two numbers compare equal.
    pub fn ieee_equals(&self, other: &JsNumber) -> (r: bool)
        ensures
            r == ieee_eq(self.bits, other.bits),
    {
        !self.is_nan() && !other.is_nan() && (self.bits == other.bits || (self.is_zero()
            && other.is_zero()))
    }
}

} // verus!
