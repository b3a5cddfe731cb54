//! A double-precision number that is never a NaN, held as its IEEE 754 bit
//! pattern. Ordering, sign and negation are decided on the pattern alone.

use vstd::prelude::*;

verus! {

/// The sign bit of a binary64 pattern.
pub const SIGN_BIT: u64 = 0x8000_0000_0000_0000;

/// The pattern of positive infinity: the largest magnitude that is a number.
pub const INFINITY_BITS: u64 = 0x7FF0_0000_0000_0000;

/// The pattern of `1.0`.
pub const ONE_BITS: u64 = 0x3FF0_0000_0000_0000;

/// The pattern without its sign bit.
pub open spec fn magnitude(bits: u64) -> int {
    if bits >= SIGN_BIT {
        bits - SIGN_BIT
    } else {
        bits as int
    }
}

/// A pattern is a NaN when its exponent is all ones and its fraction is not
/// zero, that is when its magnitude lies above that of infinity.
pub open spec fn is_nan_bits(bits: u64) -> bool {
    magnitude(bits) > INFINITY_BITS
}

/// An integer that orders patterns as the numbers they stand for are ordered:
/// the magnitude for a positive pattern, its negation for a negative one.
/// Both zeros get the key 0.
pub open spec fn order_key(bits: u64) -> int {
    if bits >= SIGN_BIT {
        -magnitude(bits)
    } else {
        magnitude(bits)
    }
}

/// The pattern with its sign bit flipped.
pub open spec fn negated_bits(bits: u64) -> u64 {
    if bits >= SIGN_BIT {
        (bits - SIGN_BIT) as u64
    } else {
        (bits + SIGN_BIT) as u64
    }
}

/// The error of building a scalar from the pattern of a NaN.
#[derive(Clone, Copy, Debug, PartialEq, Eq)]
pub struct NotANumber;

/// A binary64 number that is not a NaN.
#[derive(Clone, Copy, Debug)]
pub struct Scalar {
    bits: u64,
}

impl View for Scalar {
    type V = u64;

    closed spec fn view(&self) -> u64 {
        self.bits
    }
}

impl Scalar {
    #[verifier::type_invariant]
    spec fn not_nan(self) -> bool {
        !is_nan_bits(self.bits)
    }

    /// The scalar with the given pattern, or `NotANumber` when the pattern is
    /// that of a NaN.
    pub fn from_bits(bits: u64) -> (r: Result<Scalar, NotANumber>)
        ensures
            r.is_ok() <==> !is_nan_bits(bits),
            r.is_ok() ==> r.unwrap()@ == bits,
    {
        let mag: u64 = if bits >= SIGN_BIT { bits - SIGN_BIT } else { bits };
        if mag > INFINITY_BITS {
            Err(NotANumber)
        } else {
            Ok(Scalar { bits })
        }
    }

    /// The scalar with a pattern that is known to be a number.
    pub(crate) fn from_number_bits(bits: u64) -> (r: Scalar)
        requires
            !is_nan_bits(bits),
        ensures
            r@ == bits,
    {
        Scalar { bits }
    }

    /// The pattern of this scalar, which is never that of a NaN.
    pub fn to_bits(self) -> (r: u64)
        ensures
            r == self@,
            !is_nan_bits(r),
    {
        proof {
            use_type_invariant(self);
        }
        self.bits
    }

    /// Positive zero.
    pub fn zero() -> (r: Scalar)
        ensures
            r@ == 0,
    {
        Scalar { bits: 0 }
    }

    /// The number one.
    pub fn one() -> (r: Scalar)
        ensures
            r@ == ONE_BITS,
    {
        Scalar { bits: ONE_BITS }
    }

    /// Whether this is positive or negative zero.
    pub fn is_zero(self) -> (r: bool)
        ensures
            r == (order_key(self@) == 0),
    {
        self.bits == 0 || self.bits == SIGN_BIT
    }

    /// Whether this is greater than zero.
    pub fn is_positive(self) -> (r: bool)
        ensures
            r == (order_key(self@) > 0),
    {
        self.bits > 0 && self.bits < SIGN_BIT
    }

    /// The scalar of opposite sign and equal magnitude.
    pub closed spec fn negated(self) -> Scalar {
        Scalar { bits: negated_bits(self.bits) }
    }

    /// The pattern of the negated scalar is the negated pattern.
    pub proof fn negated_view(self)
        ensures
            self.negated()@ == negated_bits(self@),
    {
    }

    /// The number of opposite sign and equal magnitude.
    pub fn neg(self) -> (r: Scalar)
        ensures
            r == self.negated(),
            r@ == negated_bits(self@),
            order_key(r@) == -order_key(self@),
    {
        proof {
            use_type_invariant(self);
        }
        if self.bits >= SIGN_BIT {
            Scalar { bits: self.bits - SIGN_BIT }
        } else {
            Scalar { bits: self.bits + SIGN_BIT }
        }
    }

    /// Whether this is less than `other`.
    pub fn lt(self, other: Scalar) -> (r: bool)
        ensures
            r == (order_key(self@) < order_key(other@)),
    {
        let a: u64 = self.bits;
        let b: u64 = other.bits;
        if a >= SIGN_BIT {
            if b >= SIGN_BIT {
                a > b
            } else {
                a > SIGN_BIT || b > 0
            }
        } else {
            b < SIGN_BIT && a < b
        }
    }

    /// Whether this is less than or equal to `other`.
    pub fn le(self, other: Scalar) -> (r: bool)
        ensures
            r == (order_key(self@) <= order_key(other@)),
    {
        !other.lt(self)
    }

    /// Whether the two stand for the same number. The two zeros are equal.
    pub fn same(self, other: Scalar) -> (r: bool)
        ensures
            r == (order_key(self@) == order_key(other@)),
    {
        !self.lt(other) && !other.lt(self)
    }
}

/// Negating twice gives the pattern back.
pub proof fn negation_is_involution(bits: u64)
    ensures
        negated_bits(negated_bits(bits)) == bits,
        is_nan_bits(negated_bits(bits)) == is_nan_bits(bits),
{
}

} // verus!
