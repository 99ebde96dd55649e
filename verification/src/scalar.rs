//! Quantities from the instruments, held by their IEEE 754 double bit pattern. The rules of
//! this library only compare such quantities; computing with them is left to the caller.

use vstd::prelude::*;

verus! {

/// A double-precision number by its bit pattern. Single-precision quantities are widened, which
/// is exact and keeps their order. Two values are equal as patterns; [`Scalar::lt`] and
/// [`Scalar::le`] order them as numbers.
#[derive(Clone, Copy, Debug, PartialEq, Eq, Structural)]
pub struct Scalar {
    pub bits: u64,
}

/// Bit pattern of positive infinity.
pub const INFINITY_BITS: u64 = 0x7FF0_0000_0000_0000;

/// Bit pattern of negative zero: the sign bit alone.
pub const SIGN_BIT: u64 = 0x8000_0000_0000_0000;

impl Scalar {
    /// The pattern without its sign: larger for a larger absolute value.
    pub open spec fn magnitude(self) -> int {
        if self.bits >= SIGN_BIT {
            self.bits - SIGN_BIT
        } else {
            self.bits as int
        }
    }

    /// Not a number.
    pub open spec fn nan(self) -> bool {
        self.magnitude() > INFINITY_BITS
    }

    /// Neither infinite nor NaN.
    pub open spec fn finite(self) -> bool {
        self.magnitude() < INFINITY_BITS
    }

    /// The place of a number in the order of all numbers; both zeros have place zero.
    pub open spec fn rank(self) -> int {
        if self.bits >= SIGN_BIT {
            -self.magnitude()
        } else {
            self.magnitude()
        }
    }

    /// Numeric `<`: false where either side is NaN.
    pub open spec fn below(self, other: Scalar) -> bool {
        !self.nan() && !other.nan() && self.rank() < other.rank()
    }

    /// Numeric `<=`: false where either side is NaN.
    pub open spec fn at_most(self, other: Scalar) -> bool {
        !self.nan() && !other.nan() && self.rank() <= other.rank()
    }

    /// The absolute value.
    pub open spec fn absolute(self) -> Scalar {
        Scalar { bits: self.magnitude() as u64 }
    }

    /// The smaller of two numbers; the other one where one is NaN.
    pub open spec fn smaller(self, other: Scalar) -> Scalar {
        if self.nan() {
            other
        } else if other.nan() || self.rank() <= other.rank() {
            self
        } else {
            other
        }
    }

    /// Positive zero.
    pub open spec fn zero() -> Scalar {
        Scalar { bits: 0 }
    }

    /// Positive zero.
    pub fn new_zero() -> (z: Scalar)
        ensures
            z == Scalar::zero(),
    {
        Scalar { bits: 0 }
    }

    fn magnitude_bits(self) -> (m: u64)
        ensures
            m == self.magnitude(),
    {
        if self.bits >= SIGN_BIT {
            self.bits - SIGN_BIT
        } else {
            self.bits
        }
    }

    /// Whether the value is not a number.
    pub fn is_nan(self) -> (b: bool)
        ensures
            b == self.nan(),
    {
        self.magnitude_bits() > INFINITY_BITS
    }

    /// Whether the value is neither infinite nor NaN.
    pub fn is_finite(self) -> (b: bool)
        ensures
            b == self.finite(),
    {
        self.magnitude_bits() < INFINITY_BITS
    }

    /// Numeric `<`.
    pub fn lt(self, other: Scalar) -> (b: bool)
        ensures
            b == self.below(other),
    {
        if self.is_nan() || other.is_nan() {
            return false;
        }
        let a: u64 = self.magnitude_bits();
        let b: u64 = other.magnitude_bits();
        if self.bits >= SIGN_BIT {
            if other.bits >= SIGN_BIT {
                a > b
            } else {
                a > 0 || b > 0
            }
        } else if other.bits >= SIGN_BIT {
            false
        } else {
            a < b
        }
    }

    /// Numeric `<=`.
    pub fn le(self, other: Scalar) -> (b: bool)
        ensures
            b == self.at_most(other),
    {
        !self.is_nan() && !other.is_nan() && !other.lt(self)
    }

    /// The absolute value.
    pub fn abs(self) -> (r: Scalar)
        ensures
            r == self.absolute(),
    {
        Scalar { bits: self.magnitude_bits() }
    }

    /// The smaller of two numbers; the other one where one is NaN.
    pub fn min(self, other: Scalar) -> (r: Scalar)
        ensures
            r == self.smaller(other),
    {
        if self.is_nan() {
            other
        } else if other.is_nan() || self.le(other) {
            self
        } else {
            other
        }
    }
}

impl Scalar {
    /// The same quantity with the other sign.
    pub open spec fn negated(self) -> Scalar {
        Scalar {
            bits: if self.bits >= 0x8000_0000_0000_0000 {
                (self.bits - 0x8000_0000_0000_0000) as u64
            } else {
                (self.bits + 0x8000_0000_0000_0000) as u64
            },
        }
    }
}

/// Numbers are ordered: nothing lies below itself, order chains, and of two numbers one is at most
/// the other. What is not a number stands in no order.
pub proof fn law_numbers_are_ordered(a: Scalar, b: Scalar, c: Scalar)
    ensures
        !a.below(a),
        a.below(b) && b.below(c) ==> a.below(c),
        a.at_most(b) && b.at_most(c) ==> a.at_most(c),
        a.below(b) ==> a.at_most(b) && !b.at_most(a),
        !a.nan() && !b.nan() ==> (a.at_most(b) <==> !b.below(a)),
        !a.nan() ==> a.at_most(a),
        a.nan() ==> !a.below(b) && !b.below(a) && !a.at_most(b) && !b.at_most(a),
{
}

/// Of two numbers without a sign, the one with the larger bit pattern is the larger; negating both
/// turns their order round, and zero equals its negation.
pub proof fn law_order_follows_the_bits(a: Scalar, b: Scalar)
    ensures
        a.bits < b.bits <= 0x7FF0_0000_0000_0000 ==> a.below(b),
        a.below(b) <==> b.negated().below(a.negated()),
        a.bits == 0 ==> a.at_most(a.negated()) && a.negated().at_most(a),
        0 < a.bits <= 0x7FF0_0000_0000_0000 ==> a.negated().below(a),
{
}

/// A quantity is a number unless its bits without the sign pass infinity, and finite where it lies
/// strictly between the infinities.
pub proof fn law_finite_lies_between_the_infinities(a: Scalar)
    ensures
        ({
            let infinity = Scalar { bits: 0x7FF0_0000_0000_0000 };
            &&& a.finite() <==> infinity.negated().below(a) && a.below(infinity)
            &&& a.nan() <==> a.bits % 0x8000_0000_0000_0000 > 0x7FF0_0000_0000_0000
        }),
{
}

/// The magnitude is the quantity or its negation, whichever is not below zero, and the same for
/// both; the smaller of two numbers is one of them and at most either.
pub proof fn law_magnitude_and_minimum(a: Scalar, b: Scalar)
    ensures
        a.absolute() == a || a.absolute() == a.negated(),
        a.absolute() == a.negated().absolute(),
        !a.nan() ==> (Scalar { bits: 0 }).at_most(a.absolute()),
        a.smaller(b) == a || a.smaller(b) == b,
        !a.nan() && !b.nan() ==> a.smaller(b).at_most(a) && a.smaller(b).at_most(b),
        a.nan() ==> a.smaller(b) == b,
        b.nan() && !a.nan() ==> a.smaller(b) == a,
        Scalar::zero() == (Scalar { bits: 0 }),
{
}

} // verus!
