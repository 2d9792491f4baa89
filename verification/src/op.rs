//! The arithmetic operators a puzzle can offer, and their exact semantics
//! on rational values.

use vstd::prelude::*;
use crate::num::Rational;

verus! {

/// The closed set of operators, in the canonical order in which the
/// generator unlocks them as levels rise.
#[derive(Clone, Copy, Debug, PartialEq, Eq, Structural)]
pub enum Operation {
    Add,
    Subtract,
    Multiply,
    Divide,
}

/// Why a merge did not produce a value.
#[derive(Clone, Copy, Debug, PartialEq, Eq, Structural)]
pub enum ArithmeticError {
    /// The divisor was exactly zero. Expected and recoverable: during
    /// generation the attempt is retried, during play the round resets.
    DivisionByZero,
    /// The exact result does not fit the machine representation of
    /// `Rational`. A machine limit, not part of the puzzle rules; it is
    /// unreachable from generated pools, whose values stay small.
    Overflow,
}

impl Operation {
    /// Numerator of the exact result of `a self b`, over the
    /// representations (no reduction is applied).
    pub open spec fn result_n(self, a: Rational, b: Rational) -> int {
        match self {
            Operation::Add => a.n * b.d + b.n * a.d,
            Operation::Subtract => a.n * b.d - b.n * a.d,
            Operation::Multiply => a.n * b.n,
            Operation::Divide => if b.n >= 0 {
                a.n * b.d
            } else {
                -(a.n * b.d)
            },
        }
    }

    /// Denominator of the exact result of `a self b`.
    pub open spec fn result_d(self, a: Rational, b: Rational) -> int {
        match self {
            Operation::Add => a.d * b.d,
            Operation::Subtract => a.d * b.d,
            Operation::Multiply => a.d * b.d,
            Operation::Divide => if b.n >= 0 {
                a.d * b.n
            } else {
                -(a.d * b.n)
            },
        }
    }

    /// The one failure the puzzle rules know: dividing by exactly zero.
    pub open spec fn divides_by_zero(self, b: Rational) -> bool {
        self == Operation::Divide && b.n == 0
    }

    /// The exact result is representable in `Rational`'s fields.
    pub open spec fn result_fits(self, a: Rational, b: Rational) -> bool {
        &&& i64::MIN <= self.result_n(a, b) <= i64::MAX
        &&& self.result_d(a, b) <= i64::MAX
    }

    /// `apply` returns a value on these arguments.
    pub open spec fn apply_ok(self, a: Rational, b: Rational) -> bool {
        !self.divides_by_zero(b) && self.result_fits(a, b)
    }

    /// The value `apply` returns when it succeeds.
    pub open spec fn result(self, a: Rational, b: Rational) -> Rational {
        Rational { n: self.result_n(a, b) as i64, d: self.result_d(a, b) as i64 }
    }

    /// Applies the operator to two well-formed rationals.
    ///
    /// Exactly the division of a zero divisor fails with `DivisionByZero`;
    /// every other pair of inputs yields the exact rational result, or
    /// `Overflow` on the machine-limit fringe where that result has no
    /// representation.
    pub fn apply(self, a: Rational, b: Rational) -> (r: Result<Rational, ArithmeticError>)
        requires
            a.wf(),
            b.wf(),
        ensures
            r == Err::<Rational, ArithmeticError>(ArithmeticError::DivisionByZero)
                <==> self.divides_by_zero(b),
            r == Err::<Rational, ArithmeticError>(ArithmeticError::Overflow)
                <==> !self.divides_by_zero(b) && !self.result_fits(a, b),
            self.apply_ok(a, b) ==> r == Ok::<Rational, ArithmeticError>(self.result(a, b))
                && self.result(a, b).wf(),
    {
        proof {
            lemma_i64_product_bounds(a.n as int, b.n as int);
            lemma_i64_product_bounds(a.n as int, b.d as int);
            lemma_i64_product_bounds(b.n as int, a.d as int);
            lemma_i64_product_bounds(a.d as int, b.d as int);
            lemma_i64_product_bounds(a.d as int, b.n as int);
        }
        let (nn, dd): (i128, i128) = match self {
            Operation::Add => {
                let cross = ((a.n as i128) * (b.d as i128)).checked_add(
                    (b.n as i128) * (a.d as i128),
                );
                match cross {
                    Some(s) => (s, (a.d as i128) * (b.d as i128)),
                    None => {
                        return Err(ArithmeticError::Overflow);
                    },
                }
            },
            Operation::Subtract => {
                let cross = ((a.n as i128) * (b.d as i128)).checked_sub(
                    (b.n as i128) * (a.d as i128),
                );
                match cross {
                    Some(s) => (s, (a.d as i128) * (b.d as i128)),
                    None => {
                        return Err(ArithmeticError::Overflow);
                    },
                }
            },
            Operation::Multiply => ((a.n as i128) * (b.n as i128), (a.d as i128) * (b.d as i128)),
            Operation::Divide => {
                if b.n == 0 {
                    return Err(ArithmeticError::DivisionByZero);
                }
                if b.n > 0 {
                    ((a.n as i128) * (b.d as i128), (a.d as i128) * (b.n as i128))
                } else {
                    (-((a.n as i128) * (b.d as i128)), -((a.d as i128) * (b.n as i128)))
                }
            },
        };
        proof {
            lemma_product_of_positives(a.d as int, b.d as int);
            if self == Operation::Divide && b.n > 0 {
                lemma_product_of_positives(a.d as int, b.n as int);
            }
            if self == Operation::Divide && b.n < 0 {
                lemma_negated_product(a.d as int, b.n as int);
                lemma_negated_product(a.n as int, b.d as int);
                lemma_product_of_positives(a.d as int, -(b.n as int));
            }
        }
        if nn < i64::MIN as i128 || nn > i64::MAX as i128 || dd > i64::MAX as i128 {
            Err(ArithmeticError::Overflow)
        } else {
            Ok(Rational { n: nn as i64, d: dd as i64 })
        }
    }

    /// The single-character symbol under which the operator is displayed.
    pub fn symbol(self) -> (r: &'static str)
        ensures
            self == Operation::Add ==> r@ == "+"@,
            self == Operation::Subtract ==> r@ == "-"@,
            self == Operation::Multiply ==> r@ == "*"@,
            self == Operation::Divide ==> r@ == "/"@,
    {
        match self {
            Operation::Add => "+",
            Operation::Subtract => "-",
            Operation::Multiply => "*",
            Operation::Divide => "/",
        }
    }
}

/// The product of two `i64` values stays well inside `i128`.
pub proof fn lemma_i64_product_bounds(a: int, b: int)
    by (nonlinear_arith)
    requires
        i64::MIN <= a <= i64::MAX,
        i64::MIN <= b <= i64::MAX,
    ensures
        -0x4000_0000_0000_0000_0000_0000_0000_0000 <= a * b
            <= 0x4000_0000_0000_0000_0000_0000_0000_0000,
{
}

/// Negation distributes over a product.
pub proof fn lemma_negated_product(a: int, b: int)
    by (nonlinear_arith)
    ensures
        -(a * b) == a * (-b),
        -(a * b) == (-a) * b,
{
}

/// The product of two positive integers is positive.
pub proof fn lemma_product_of_positives(a: int, b: int)
    by (nonlinear_arith)
    requires
        a > 0,
        b > 0,
    ensures
        a * b > 0,
{
}

} // verus!
