//! Single-precision numbers as the library sees them.
//!
//! The library never rounds: it stores numbers, negates them, compares them
//! and chooses among them. All of that is exact on the IEEE-754 binary32
//! encoding, so a number is held as its 32-bit word and every operation
//! here is integer work on that word. Arithmetic that rounds is the
//! caller's business.

use vstd::prelude::*;

verus! {

/// The sign bit of a binary32 word.
pub const SIGN_BIT: u32 = 0x8000_0000;

/// The word of positive infinity; every larger magnitude is a NaN.
pub const INFINITY_BITS: u32 = 0x7f80_0000;

/// A binary32 number, held as its encoding.
///
/// The derived `==` compares encodings: it tells `+0.0` from `-0.0` and
/// finds a NaN equal to itself. Numeric comparison is `num_eq`, `lt`, `le`.
#[derive(Clone, Copy, Debug, PartialEq, Eq, Hash, Structural)]
pub struct Scalar {
    pub bits: u32,
}

impl Scalar {
    /// The encoding without its sign bit.
    pub open spec fn magnitude(self) -> int {
        if self.bits >= SIGN_BIT {
            self.bits - SIGN_BIT
        } else {
            self.bits as int
        }
    }

    /// Whether the sign bit is set (true of `-0.0` and of some NaNs).
    pub open spec fn sign(self) -> bool {
        self.bits >= SIGN_BIT
    }

    /// Not a number: the exponent is all ones and the fraction is not zero.
    pub open spec fn is_nan(self) -> bool {
        self.magnitude() > INFINITY_BITS
    }

    /// Where a number that is not a NaN stands on the extended real line.
    ///
    /// Magnitudes of binary32 grow with their encodings, so the signed
    /// magnitude orders the numbers as their values do; both zeros stand
    /// at 0, the infinities at the two ends.
    pub open spec fn rank(self) -> int {
        if self.sign() {
            -self.magnitude()
        } else {
            self.magnitude()
        }
    }

    /// Numeric `<`: false whenever a NaN is involved.
    pub open spec fn spec_lt(self, other: Scalar) -> bool {
        !self.is_nan() && !other.is_nan() && self.rank() < other.rank()
    }

    /// Numeric `<=`: false whenever a NaN is involved.
    pub open spec fn spec_le(self, other: Scalar) -> bool {
        !self.is_nan() && !other.is_nan() && self.rank() <= other.rank()
    }

    /// Numeric `==`: false whenever a NaN is involved, true of the two zeros.
    pub open spec fn spec_num_eq(self, other: Scalar) -> bool {
        !self.is_nan() && !other.is_nan() && self.rank() == other.rank()
    }

    /// The number with the opposite sign; a NaN stays a NaN.
    pub open spec fn spec_neg(self) -> Scalar {
        if self.bits >= SIGN_BIT {
            Scalar { bits: (self.bits - SIGN_BIT) as u32 }
        } else {
            Scalar { bits: (self.bits + SIGN_BIT) as u32 }
        }
    }

    /// The larger of two numbers, a NaN giving way to the other operand;
    /// of two operands that compare equal, the first.
    pub open spec fn spec_max(self, other: Scalar) -> Scalar {
        if self.is_nan() {
            other
        } else if self.spec_lt(other) {
            other
        } else {
            self
        }
    }

    /// The smaller of two numbers, a NaN giving way to the other operand;
    /// of two operands that compare equal, the first.
    pub open spec fn spec_min(self, other: Scalar) -> Scalar {
        if self.is_nan() {
            other
        } else if other.spec_lt(self) {
            other
        } else {
            self
        }
    }

    /// Wraps an encoding.
    pub fn from_bits(bits: u32) -> (r: Scalar)
        ensures
            r.bits == bits,
    {
        Scalar { bits }
    }

    /// The encoding.
    pub fn to_bits(self) -> (r: u32)
        ensures
            r == self.bits,
    {
        self.bits
    }

    /// Positive zero.
    pub fn zero() -> (r: Scalar)
        ensures
            r.bits == 0,
    {
        Scalar { bits: 0 }
    }

    /// The signed magnitude of the encoding, as a machine integer.
    fn signed_magnitude(self) -> (r: i64)
        ensures
            r == self.rank(),
    {
        if self.bits >= SIGN_BIT {
            -((self.bits - SIGN_BIT) as i64)
        } else {
            self.bits as i64
        }
    }

    /// Whether the value is not a number.
    #[verifier::when_used_as_spec(is_nan)]
    pub fn nan(self) -> (r: bool)
        ensures
            r == self.is_nan(),
    {
        let m: i64 = self.signed_magnitude();
        m > INFINITY_BITS as i64 || m < -(INFINITY_BITS as i64)
    }

    /// Numeric `<`.
    #[verifier::when_used_as_spec(spec_lt)]
    pub fn lt(self, other: Scalar) -> (r: bool)
        ensures
            r == self.spec_lt(other),
    {
        !self.nan() && !other.nan() && self.signed_magnitude() < other.signed_magnitude()
    }

    /// Numeric `<=`.
    #[verifier::when_used_as_spec(spec_le)]
    pub fn le(self, other: Scalar) -> (r: bool)
        ensures
            r == self.spec_le(other),
    {
        !self.nan() && !other.nan() && self.signed_magnitude() <= other.signed_magnitude()
    }

    /// Numeric `==`.
    #[verifier::when_used_as_spec(spec_num_eq)]
    pub fn num_eq(self, other: Scalar) -> (r: bool)
        ensures
            r == self.spec_num_eq(other),
    {
        !self.nan() && !other.nan() && self.signed_magnitude() == other.signed_magnitude()
    }

    /// The number with the opposite sign.
    #[verifier::when_used_as_spec(spec_neg)]
    pub fn neg(self) -> (r: Scalar)
        ensures
            r == self.spec_neg(),
    {
        if self.bits >= SIGN_BIT {
            Scalar { bits: self.bits - SIGN_BIT }
        } else {
            Scalar { bits: self.bits + SIGN_BIT }
        }
    }

    /// The larger of two numbers, a NaN giving way to the other.
    #[verifier::when_used_as_spec(spec_max)]
    pub fn max(self, other: Scalar) -> (r: Scalar)
        ensures
            r == self.spec_max(other),
    {
        if self.nan() {
            other
        } else if self.lt(other) {
            other
        } else {
            self
        }
    }

    /// The smaller of two numbers, a NaN giving way to the other.
    #[verifier::when_used_as_spec(spec_min)]
    pub fn min(self, other: Scalar) -> (r: Scalar)
        ensures
            r == self.spec_min(other),
    {
        if self.nan() {
            other
        } else if other.lt(self) {
            other
        } else {
            self
        }
    }
}

/// Away from the NaNs the numeric order is a total preorder: any two
/// numbers compare one way or the other, and the comparison is transitive.
/// `<` is `<=` without its converse, and `num_eq` is `<=` both ways.
pub proof fn lemma_order(a: Scalar, b: Scalar, c: Scalar)
    requires
        !a.is_nan(),
        !b.is_nan(),
        !c.is_nan(),
    ensures
        a.spec_le(b) || b.spec_le(a),
        a.spec_le(b) && b.spec_le(c) ==> a.spec_le(c),
        a.spec_lt(b) <==> !b.spec_le(a),
        a.spec_num_eq(b) <==> a.spec_le(b) && b.spec_le(a),
{
}

/// The larger and the smaller of two numbers are each one of the two.
/// Where neither is a NaN, the larger is at least and the smaller at most
/// as great as both; a NaN comes out only where both are NaNs.
pub proof fn lemma_max_min(a: Scalar, b: Scalar)
    ensures
        a.spec_max(b) == a || a.spec_max(b) == b,
        a.spec_min(b) == a || a.spec_min(b) == b,
        a.spec_max(b).is_nan() ==> a.is_nan() && b.is_nan(),
        a.spec_min(b).is_nan() ==> a.is_nan() && b.is_nan(),
        !a.is_nan() && !b.is_nan() ==> {
            &&& a.spec_le(a.spec_max(b))
            &&& b.spec_le(a.spec_max(b))
            &&& a.spec_min(b).spec_le(a)
            &&& a.spec_min(b).spec_le(b)
        },
{
}

/// Negation is an involution and reverses the order; it keeps NaNs NaN.
pub proof fn lemma_neg(a: Scalar, b: Scalar)
    ensures
        a.spec_neg().spec_neg() == a,
        a.spec_neg().is_nan() == a.is_nan(),
        a.spec_neg().magnitude() == a.magnitude(),
        a.spec_lt(b) <==> b.spec_neg().spec_lt(a.spec_neg()),
{
}

} // verus!
