//! End-of-level classification: how close the one remaining pool value came
//! to the target, and which continuations that classification offers.

use vstd::prelude::*;
use crate::num::Rational;

verus! {

/// How a finished puzzle ended, by the distance `|final_value - target|`:
/// zero, at most one half, or more.
#[derive(Clone, Copy, Debug, PartialEq, Eq, Structural)]
pub enum Outcome {
    PerfectWin,
    CloseWin,
    Failed,
}

/// Classifies the end of a puzzle from the one remaining value and the
/// target: the distance between them is exactly zero (`PerfectWin`), more
/// than zero but at most one half (`CloseWin`), or larger (`Failed`).
pub fn classify_outcome(final_value: Rational, target: Rational) -> (r: Outcome)
    requires
        final_value.wf(),
        target.wf(),
    ensures
        r == Outcome::PerfectWin <==> final_value.same_value(target),
        r == Outcome::CloseWin <==> !final_value.same_value(target) && final_value.within_half(
            target,
        ),
        r == Outcome::Failed <==> !final_value.within_half(target),
{
    proof {
        crate::op::lemma_i64_product_bounds(final_value.n as int, target.d as int);
        crate::op::lemma_i64_product_bounds(target.n as int, final_value.d as int);
        crate::op::lemma_i64_product_bounds(final_value.d as int, target.d as int);
        crate::op::lemma_product_of_positives(final_value.d as int, target.d as int);
    }
    let p1 = (final_value.n as i128) * (target.d as i128);
    let p2 = (target.n as i128) * (final_value.d as i128);
    let y = (final_value.d as i128) * (target.d as i128);
    match p1.checked_sub(p2) {
        None => Outcome::Failed,
        Some(x) => {
            if x == i128::MIN {
                Outcome::Failed
            } else {
                let ax = if x < 0 {
                    -x
                } else {
                    x
                };
                if ax == 0 {
                    Outcome::PerfectWin
                } else if ax <= y - ax {
                    Outcome::CloseWin
                } else {
                    Outcome::Failed
                }
            }
        },
    }
}

/// A finished level offers "advance to the next level" exactly on a win,
/// perfect or close.
pub fn offers_next_level(outcome: Outcome) -> (r: bool)
    ensures
        r == (outcome == Outcome::PerfectWin || outcome == Outcome::CloseWin),
{
    match outcome {
        Outcome::PerfectWin => true,
        Outcome::CloseWin => true,
        Outcome::Failed => false,
    }
}

/// A finished level offers "retry" exactly when the win was not perfect.
pub fn offers_retry(outcome: Outcome) -> (r: bool)
    ensures
        r == (outcome != Outcome::PerfectWin),
{
    match outcome {
        Outcome::PerfectWin => false,
        Outcome::CloseWin => true,
        Outcome::Failed => true,
    }
}

} // verus!
