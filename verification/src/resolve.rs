//! Round resolution: once a round is ready, merge the two selected pool
//! values with the selected operator, or reject the merge, and detect the
//! end of the puzzle.

use vstd::prelude::*;
use crate::num::Rational;
use crate::op::Operation;
use crate::round::PlayRound;

verus! {

/// The pool after one merge: the value at `i` is overwritten with the merge
/// result and the slot at `j` is removed, in that fixed order, so that the
/// first operand's slot is not disturbed by the removal.
pub open spec fn merge_at(p: Seq<Rational>, i: int, j: int, v: Rational) -> Seq<Rational> {
    p.update(i, v).remove(j)
}

/// The final value and the target it is compared against, recorded when the
/// pool shrinks to one value.
#[derive(Clone, Copy, Debug, PartialEq, Eq, Structural)]
pub struct GameResult {
    pub last_number: Rational,
    pub target_number: Rational,
}

impl Default for GameResult {
    /// Zero compared against zero, until a puzzle completes.
    fn default() -> (r: GameResult)
        ensures
            r == (GameResult {
                last_number: Rational { n: 0, d: 1 },
                target_number: Rational { n: 0, d: 1 },
            }),
    {
        GameResult {
            last_number: Rational { n: 0, d: 1 },
            target_number: Rational { n: 0, d: 1 },
        }
    }
}

/// What one resolution did, for the caller to surface: a merge that leaves
/// play running, a merge that finished the puzzle, or a failed merge.
#[derive(Clone, Copy, Debug, PartialEq, Eq, Structural)]
pub enum MergeOutcome {
    /// The merge succeeded and more than one value remains.
    Merged,
    /// The merge succeeded and exactly one value remains: the puzzle is
    /// over, with the recorded final value and target.
    Completed(GameResult),
    /// The operator rejected the pair (a zero divisor, or a value out of
    /// machine range): the pool is untouched and play continues.
    Failed,
}

/// All values of the pool are well-formed rationals.
pub open spec fn pool_wf(p: Seq<Rational>) -> bool {
    forall|k: int| 0 <= k < p.len() ==> (#[trigger] p[k]).wf()
}

/// The round's selections address distinct, in-bounds slots of a pool of
/// `len` values. Guaranteed by the reset discipline: a stale index would be
/// a violated invariant, not user input.
pub open spec fn selections_valid(round: PlayRound, len: int) -> bool {
    &&& round.number1.unwrap().index < len
    &&& round.number2.unwrap().index < len
    &&& round.number1.unwrap().index != round.number2.unwrap().index
}

/// Resolves a ready round against the current pool.
///
/// On success the first operand's slot takes the merged value, the second
/// operand's slot is removed, and a pool of one remaining value completes
/// the puzzle with a recorded `GameResult`. On failure the pool is
/// untouched. Either way the round is reset to empty.
pub fn resolve_round(pool: &mut Vec<Rational>, round: &mut PlayRound, target: Rational) -> (r:
    MergeOutcome)
    requires
        old(round).is_ready_spec(),
        selections_valid(*old(round), old(pool)@.len() as int),
        pool_wf(old(pool)@),
    ensures
        *final(round) == PlayRound::empty_spec(),
        ({
            let op = old(round).operation.unwrap();
            let i = old(round).number1.unwrap().index as int;
            let j = old(round).number2.unwrap().index as int;
            let a = old(pool)@[i];
            let b = old(pool)@[j];
            &&& op.apply_ok(a, b) ==> {
                &&& final(pool)@ == merge_at(old(pool)@, i, j, op.result(a, b))
                &&& pool_wf(final(pool)@)
                &&& final(pool)@.len() > 1 ==> r == MergeOutcome::Merged
                &&& final(pool)@.len() == 1 ==> r == MergeOutcome::Completed(
                    (GameResult { last_number: final(pool)@[0], target_number: target }),
                )
            }
            &&& !op.apply_ok(a, b) ==> final(pool)@ == old(pool)@ && r == MergeOutcome::Failed
        }),
{
    let op = round.operation.unwrap();
    let sel1 = round.number1.unwrap();
    let sel2 = round.number2.unwrap();
    round.reset();
    let a = pool[sel1.index];
    let b = pool[sel2.index];
    match op.apply(a, b) {
        Ok(v) => {
            pool[sel1.index] = v;
            pool.remove(sel2.index);
            if pool.len() == 1 {
                let result = GameResult { last_number: pool[0], target_number: target };
                MergeOutcome::Completed(result)
            } else {
                MergeOutcome::Merged
            }
        },
        Err(_) => MergeOutcome::Failed,
    }
}

} // verus!
