use vstd::prelude::*;

verus! {

/// An IEEE-754 single-precision number, held by its bit pattern.
///
/// Bit 31 is the sign, bits 23 to 30 the biased exponent and bits 0 to 22 the
/// fraction. Nothing in this crate does floating-point arithmetic on such a
/// number: values are stored, compared by their bits, negated, classified
/// and rounded to integers, all of it in integer arithmetic on the fields.
#[derive(Clone, Copy, Debug, PartialEq, Eq, Structural)]
pub struct Single {
    pub bits: u32,
}

impl Single {
    /// The bit pattern without its sign bit.
    pub open spec fn magnitude(self) -> int {
        if self.bits >= 0x8000_0000 {
            self.bits - 0x8000_0000
        } else {
            self.bits as int
        }
    }

    /// Whether the number is neither an infinity nor a NaN: its exponent
    /// field is not all ones.
    pub open spec fn finite(self) -> bool {
        self.magnitude() < 0x7f80_0000
    }

    /// The number with its sign bit flipped.
    pub open spec fn negated(self) -> Single {
        if self.bits >= 0x8000_0000 {
            Single { bits: (self.bits - 0x8000_0000) as u32 }
        } else {
            Single { bits: (self.bits + 0x8000_0000) as u32 }
        }
    }

    /// Positive zero.
    pub open spec fn zero_spec() -> Single {
        Single { bits: 0 }
    }

    /// The number one: sign 0, biased exponent 127, fraction 0.
    pub open spec fn one_spec() -> Single {
        Single { bits: 0x3f80_0000 }
    }

    /// The number with the given bit pattern.
    pub fn from_bits(bits: u32) -> (r: Single)
        ensures
            r.bits == bits,
    {
        Single { bits }
    }

    /// The bit pattern of the number.
    pub fn to_bits(self) -> (bits: u32)
        ensures
            bits == self.bits,
    {
        self.bits
    }

    /// Positive zero.
    #[verifier::when_used_as_spec(zero_spec)]
    pub fn zero() -> (r: Single)
        ensures
            r == Single::zero_spec(),
    {
        Single { bits: 0 }
    }

    /// The number one.
    #[verifier::when_used_as_spec(one_spec)]
    pub fn one() -> (r: Single)
        ensures
            r == Single::one_spec(),
    {
        Single { bits: 0x3f80_0000 }
    }

    /// Negates the number by flipping its sign bit, as IEEE-754 negation
    /// does for every value, zeros, infinities and NaNs included.
    pub fn neg(self) -> (r: Single)
        ensures
            r == self.negated(),
    {
        let bits: u32 = self.bits;
        assert(bits ^ 0x8000_0000u32 == if bits >= 0x8000_0000u32 {
            (bits - 0x8000_0000u32) as u32
        } else {
            (bits + 0x8000_0000u32) as u32
        }) by (bit_vector);
        Single { bits: bits ^ 0x8000_0000 }
    }

    /// Whether the number is finite.
    pub fn is_finite(self) -> (r: bool)
        ensures
            r == self.finite(),
    {
        let bits: u32 = self.bits;
        assert(bits & 0x7fff_ffffu32 == if bits >= 0x8000_0000u32 {
            (bits - 0x8000_0000u32) as u32
        } else {
            bits
        }) by (bit_vector);
        (bits & 0x7fff_ffff) < 0x7f80_0000
    }
}

} // verus!
