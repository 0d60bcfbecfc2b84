//! Doubles as bit patterns, and the numeric-fault policy on them.

use vstd::prelude::*;

verus! {

/// The exponent field of a double: eleven bits below the sign.
pub const EXPONENT_MASK: u64 = 0x7ff0_0000_0000_0000;

/// The fraction field of a double: the low fifty-two bits.
pub const FRACTION_MASK: u64 = 0x000f_ffff_ffff_ffff;

/// The bit pattern of positive zero.
pub const ZERO_BITS: u64 = 0;

/// The bit pattern of the largest finite double.
pub const MAX_BITS: u64 = 0x7fef_ffff_ffff_ffff;

/// An IEEE 754 double, held as its bit pattern.
///
/// The library moves such numbers around and classifies them; it never does
/// arithmetic on them itself.
#[derive(Debug, Clone, Copy, PartialEq, Eq, Structural)]
pub struct Scalar {
    pub bits: u64,
}

impl Scalar {
    /// Not a number: the exponent is all ones and the fraction is not zero.
    pub open spec fn spec_is_nan(&self) -> bool {
        (self.bits & EXPONENT_MASK) == EXPONENT_MASK && (self.bits & FRACTION_MASK) != 0
    }

    /// Positive or negative infinity: the exponent is all ones and the
    /// fraction is zero.
    pub open spec fn spec_is_infinite(&self) -> bool {
        (self.bits & EXPONENT_MASK) == EXPONENT_MASK && (self.bits & FRACTION_MASK) == 0
    }

    /// Neither infinite nor not-a-number.
    pub open spec fn spec_is_finite(&self) -> bool {
        (self.bits & EXPONENT_MASK) != EXPONENT_MASK
    }

    /// What the evaluator keeps of a computed number: zero in place of
    /// not-a-number, the largest finite double in place of either infinity,
    /// and every other number as it is.
    pub open spec fn spec_sanitized(&self) -> Scalar {
        if self.spec_is_nan() {
            Scalar { bits: ZERO_BITS }
        } else if self.spec_is_infinite() {
            Scalar { bits: MAX_BITS }
        } else {
            *self
        }
    }

    pub fn from_bits(bits: u64) -> (s: Scalar)
        ensures
            s.bits == bits,
    {
        Scalar { bits }
    }

    pub fn to_bits(&self) -> (bits: u64)
        ensures
            bits == self.bits,
    {
        self.bits
    }

    /// Positive zero.
    pub fn zero() -> (s: Scalar)
        ensures
            s.bits == ZERO_BITS,
    {
        Scalar { bits: ZERO_BITS }
    }

    /// The largest finite double.
    pub fn max() -> (s: Scalar)
        ensures
            s.bits == MAX_BITS,
    {
        Scalar { bits: MAX_BITS }
    }

    #[verifier::when_used_as_spec(spec_is_nan)]
    pub fn is_nan(&self) -> (r: bool)
        ensures
            r == self.spec_is_nan(),
    {
        (self.bits & EXPONENT_MASK) == EXPONENT_MASK && (self.bits & FRACTION_MASK) != 0
    }

    #[verifier::when_used_as_spec(spec_is_infinite)]
    pub fn is_infinite(&self) -> (r: bool)
        ensures
            r == self.spec_is_infinite(),
    {
        (self.bits & EXPONENT_MASK) == EXPONENT_MASK && (self.bits & FRACTION_MASK) == 0
    }

    #[verifier::when_used_as_spec(spec_is_finite)]
    pub fn is_finite(&self) -> (r: bool)
        ensures
            r == self.spec_is_finite(),
    {
        (self.bits & EXPONENT_MASK) != EXPONENT_MASK
    }

    /// Applies the numeric-fault policy to a computed number.
    #[verifier::when_used_as_spec(spec_sanitized)]
    pub fn sanitized(&self) -> (s: Scalar)
        ensures
            s == self.spec_sanitized(),
    {
        if self.is_nan() {
            Scalar::zero()
        } else if self.is_infinite() {
            Scalar::max()
        } else {
            *self
        }
    }
}

/// None of the numbers is infinite or not a number.
pub open spec fn all_finite(numbers: Seq<Scalar>) -> bool {
    forall|i: int| 0 <= i < numbers.len() ==> (#[trigger] numbers[i]).spec_is_finite()
}

/// Zero and the largest finite double are finite.
pub proof fn lemma_zero_and_max_are_finite()
    ensures
        (Scalar { bits: ZERO_BITS }).spec_is_finite(),
        (Scalar { bits: MAX_BITS }).spec_is_finite(),
{
    assert((ZERO_BITS & EXPONENT_MASK) != EXPONENT_MASK) by (bit_vector);
    assert((MAX_BITS & EXPONENT_MASK) != EXPONENT_MASK) by (bit_vector);
}

/// A sanitized number is always finite, and sanitizing a finite number
/// leaves it as it is.
pub proof fn lemma_sanitized_is_finite(x: Scalar)
    ensures
        x.spec_sanitized().spec_is_finite(),
        x.spec_is_finite() ==> x.spec_sanitized() == x,
        x.spec_sanitized().spec_sanitized() == x.spec_sanitized(),
{
    lemma_zero_and_max_are_finite();
}

} // verus!
