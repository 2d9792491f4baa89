//! Exact rational numbers, the value domain of the puzzle.
//!
//! Pool values start as small integers; merging two of them with `/` can
//! leave a fraction, so every quantity the engine touches is a numerator
//! over a positive denominator, compared exactly (no rounding and no
//! epsilon: a divisor fails a merge iff it is exactly zero).

use vstd::prelude::*;

verus! {

/// A rational number `n / d` with a positive denominator.
///
/// Representations are not reduced: `2/4` and `1/2` are different values of
/// this type that denote the same number, which `same_value` captures.
#[derive(Clone, Copy, Debug, PartialEq, Eq, Structural)]
pub struct Rational {
    pub n: i64,
    pub d: i64,
}

impl Rational {
    /// Well-formed: the denominator is positive.
    pub open spec fn wf(self) -> bool {
        self.d > 0
    }

    /// `self` and `other` denote the same number: `n1/d1 == n2/d2`
    /// iff `n1 * d2 == n2 * d1` (denominators are positive).
    pub open spec fn same_value(self, other: Rational) -> bool {
        self.n * other.d == other.n * self.d
    }

    /// The numbers denoted by `self` and `other` differ by at most one
    /// half: `|n1/d1 - n2/d2| <= 1/2` iff `2 * |n1*d2 - n2*d1| <= d1*d2`
    /// (denominators are positive).
    pub open spec fn within_half(self, other: Rational) -> bool {
        2 * vstd::math::abs(self.n * other.d - other.n * self.d) <= self.d * other.d
    }

    /// `self` denotes an integer of the interval `[lo, hi]`.
    pub open spec fn is_integer_in(self, lo: int, hi: int) -> bool {
        self.d == 1 && lo <= self.n <= hi
    }

    /// The integer `v` as a rational.
    pub fn from_integer(v: i64) -> (r: Rational)
        ensures
            r == (Rational { n: v, d: 1 }),
    {
        Rational { n: v, d: 1 }
    }
}

} // verus!
