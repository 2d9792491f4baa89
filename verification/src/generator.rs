//! Deterministic, seeded puzzle generation.
//!
//! From `(seed, level_index)` alone the generator derives a pool of small
//! integer values, a prefix of the canonical operator order, and a target
//! that is reachable from that pool with those operators: it forward-plays
//! random merges over a copy of the pool until one value remains, and that
//! value is the target.

use vstd::prelude::*;
use vstd::arithmetic::div_mod::lemma_div_is_ordered;
use crate::num::Rational;
use crate::op::Operation;
use crate::rng::XorShift64;
use crate::rng::next_state;
use crate::rng::seeded_state;
use crate::rng::state_after;

verus! {

/// How many values the pool holds at a level: a linear interpolation from 2
/// toward 10, rounded half away from zero and clamped to `[2, 10]`:
/// `clamp(round(lerp(2, 10, (level_index + 1) / 20)), 2, 10)`, which over
/// the integers is `(4 * level_index + 29) / 10` until it saturates.
pub open spec fn spec_pool_count(level_index: u64) -> int {
    if level_index >= 20 {
        10
    } else {
        (4 * level_index + 29) / 10
    }
}

/// How many operators a level offers: a linear interpolation from 1 toward
/// 4, rounded half away from zero and clamped to `[1, 4]`:
/// `clamp(round(lerp(1, 4, (level_index + 2) / 8)), 1, 4)`, which over the
/// integers is `(6 * level_index + 36) / 16` until it saturates.
pub open spec fn spec_operator_count(level_index: u64) -> int {
    if level_index >= 6 {
        4
    } else {
        (6 * level_index + 36) / 16
    }
}

/// The pool size of every level lies in `[2, 10]`.
pub proof fn lemma_pool_count_range(level_index: u64)
    ensures
        2 <= spec_pool_count(level_index) <= 10,
{
    if level_index < 20 {
        lemma_div_is_ordered(29, 4 * level_index + 29, 10);
        lemma_div_is_ordered(4 * level_index + 29, 105, 10);
    }
}

/// The operator count of every level lies in `[2, 4]` (within the set's
/// stated bound of `[1, 4]`): in particular `Add` is always offered.
pub proof fn lemma_operator_count_range(level_index: u64)
    ensures
        2 <= spec_operator_count(level_index) <= 4,
{
    if level_index < 6 {
        lemma_div_is_ordered(36, 6 * level_index + 36, 16);
        lemma_div_is_ordered(6 * level_index + 36, 66, 16);
    }
}

/// Law: the pool size never shrinks as the level index grows, and saturates
/// at 10 from level 19 on.
pub proof fn lemma_pool_count_monotone(l1: u64, l2: u64)
    requires
        l1 <= l2,
    ensures
        spec_pool_count(l1) <= spec_pool_count(l2),
        l1 >= 19 ==> spec_pool_count(l1) == 10,
{
    lemma_pool_count_range(l1);
    lemma_pool_count_range(l2);
    if l1 < 20 && l2 < 20 {
        lemma_div_is_ordered(4 * l1 + 29, 4 * l2 + 29, 10);
    }
    if l1 == 19 {
        assert(spec_pool_count(l1) == 105int / 10);
    }
}

/// Law: the operator count never shrinks as the level index grows, and
/// saturates at 4 from level 5 on.
pub proof fn lemma_operator_count_monotone(l1: u64, l2: u64)
    requires
        l1 <= l2,
    ensures
        spec_operator_count(l1) <= spec_operator_count(l2),
        l1 >= 5 ==> spec_operator_count(l1) == 4,
{
    lemma_operator_count_range(l1);
    lemma_operator_count_range(l2);
    if l1 < 6 && l2 < 6 {
        lemma_div_is_ordered(6 * l1 + 36, 6 * l2 + 36, 16);
    }
    if l1 == 5 {
        assert(spec_operator_count(l1) == 66int / 16);
    }
}

/// The pool size of a level, as executable code.
pub fn pool_count(level_index: u64) -> (c: usize)
    ensures
        c == spec_pool_count(level_index),
        2 <= c <= 10,
{
    proof {
        lemma_pool_count_range(level_index);
    }
    if level_index >= 20 {
        10
    } else {
        ((4 * level_index + 29) / 10) as usize
    }
}

/// The operator count of a level, as executable code.
pub fn operator_count(level_index: u64) -> (c: usize)
    ensures
        c == spec_operator_count(level_index),
        2 <= c <= 4,
{
    proof {
        lemma_operator_count_range(level_index);
    }
    if level_index >= 6 {
        4
    } else {
        ((6 * level_index + 36) / 16) as usize
    }
}

/// The canonical operator order. A level offers a prefix of it, never a
/// random subset, so easy levels stay additive and division comes last.
pub open spec fn canonical_order() -> Seq<Operation> {
    seq![Operation::Add, Operation::Subtract, Operation::Multiply, Operation::Divide]
}

/// The operators of a level: the first `spec_operator_count(level_index)`
/// of the canonical order.
pub open spec fn spec_operators(level_index: u64) -> Seq<Operation> {
    canonical_order().take(spec_operator_count(level_index))
}

/// The operators of a level, as executable code.
pub fn level_operators(level_index: u64) -> (ops: Vec<Operation>)
    ensures
        ops@ == spec_operators(level_index),
        ops@.len() >= 1,
        ops@[0] == Operation::Add,
{
    let count = operator_count(level_index);
    let mut ops: Vec<Operation> = Vec::new();
    ops.push(Operation::Add);
    ops.push(Operation::Subtract);
    if count >= 3 {
        ops.push(Operation::Multiply);
    }
    if count >= 4 {
        ops.push(Operation::Divide);
    }
    proof {
        assert(ops@ =~= spec_operators(level_index));
    }
    ops
}

/// The value of one pool draw from state `s`: an integer of `[1, 10]`.
pub open spec fn draw_value(s: u64) -> int {
    1 + (s as int) % 10
}

/// The pool of a generation that starts drawing from state `s`: `count`
/// integers of `[1, 10]`, in draw order.
pub open spec fn spec_pool(s: u64, count: int) -> Seq<Rational> {
    Seq::new(count as nat, |i: int| Rational { n: draw_value(state_after(s, (i + 1) as nat)) as i64, d: 1 })
}

/// Draws `count` pool values, advancing the generator `count` times.
pub fn draw_pool(rng: &mut XorShift64, count: usize) -> (pool: Vec<Rational>)
    ensures
        pool@ == spec_pool(old(rng).state, count as int),
        final(rng).state == state_after(old(rng).state, count as nat),
        pool@.len() == count,
        forall|k: int| 0 <= k < count ==> (#[trigger] pool@[k]).is_integer_in(1, 10),
{
    let ghost s0 = rng.state;
    let mut pool: Vec<Rational> = Vec::new();
    let mut k: usize = 0;
    while k < count
        invariant
            k <= count,
            rng.state == state_after(s0, k as nat),
            pool@ =~= spec_pool(s0, k as int),
        decreases count - k,
    {
        let drawn = rng.next();
        let value = 1 + (drawn % 10);
        pool.push(Rational { n: value as i64, d: 1 });
        k = k + 1;
        proof {
            assert(state_after(s0, k as nat) == next_state(state_after(s0, (k - 1) as nat)));
            assert(pool@ =~= spec_pool(s0, k as int));
        }
    }
    proof {
        assert forall|i: int| 0 <= i < count implies (#[trigger] pool@[i]).is_integer_in(1, 10) by {
            assert(pool@[i].n == draw_value(state_after(s0, (i + 1) as nat)) as i64);
        }
    }
    pool
}

/// Playing the merges `steps` (each a triple of two distinct slot indices
/// and an operator index) from pool `p` is legal throughout and ends on a
/// single value that denotes the same number as `t`.
pub open spec fn reaches_via(
    p: Seq<Rational>,
    ops: Seq<Operation>,
    steps: Seq<(int, int, int)>,
    t: Rational,
) -> bool
    decreases steps.len(),
{
    if steps.len() == 0 {
        p.len() == 1 && p[0].same_value(t)
    } else {
        let (i, j, k) = steps[0];
        &&& 0 <= i < p.len()
        &&& 0 <= j < p.len()
        &&& i != j
        &&& 0 <= k < ops.len()
        &&& ops[k].apply_ok(p[i], p[j])
        &&& reaches_via(
            crate::resolve::merge_at(p, i, j, ops[k].result(p[i], p[j])),
            ops,
            steps.drop_first(),
            t,
        )
    }
}

/// The target `t` is reachable from pool `p`: some sequence of merges, each
/// applying one of the operators of `ops` to two distinct slots, reduces
/// `p` to a single value that denotes the same number as `t`.
pub open spec fn reaches(p: Seq<Rational>, ops: Seq<Operation>, t: Rational) -> bool {
    exists|steps: Seq<(int, int, int)>| reaches_via(p, ops, steps, t)
}

/// One reachable merge away from `p` is still reachable from `p`.
pub proof fn lemma_reaches_step(
    p: Seq<Rational>,
    ops: Seq<Operation>,
    t: Rational,
    i: int,
    j: int,
    k: int,
)
    requires
        0 <= i < p.len(),
        0 <= j < p.len(),
        i != j,
        0 <= k < ops.len(),
        ops[k].apply_ok(p[i], p[j]),
        reaches(crate::resolve::merge_at(p, i, j, ops[k].result(p[i], p[j])), ops, t),
    ensures
        reaches(p, ops, t),
{
    let merged = crate::resolve::merge_at(p, i, j, ops[k].result(p[i], p[j]));
    let tail = choose|steps: Seq<(int, int, int)>| reaches_via(merged, ops, steps, t);
    let steps = seq![(i, j, k)] + tail;
    assert(steps.drop_first() =~= tail);
    assert(reaches_via(p, ops, steps, t));
}

/// The sum of the numerators of a pool of integer values.
pub open spec fn int_sum(p: Seq<Rational>) -> int
    decreases p.len(),
{
    if p.len() == 0 {
        0
    } else {
        p[0].n + int_sum(p.drop_first())
    }
}

/// A pool of values at least 1 sums to at least its length.
pub proof fn lemma_int_sum_lower(p: Seq<Rational>)
    requires
        forall|k: int| 0 <= k < p.len() ==> (#[trigger] p[k]).n >= 1,
    ensures
        int_sum(p) >= p.len(),
    decreases p.len(),
{
    if p.len() > 0 {
        assert(forall|k: int|
            0 <= k < p.drop_first().len() ==> (#[trigger] p.drop_first()[k]) == p[k + 1]);
        lemma_int_sum_lower(p.drop_first());
    }
}

/// A pool of values at most 10 sums to at most ten times its length.
pub proof fn lemma_int_sum_upper(p: Seq<Rational>)
    requires
        forall|k: int| 0 <= k < p.len() ==> (#[trigger] p[k]).n <= 10,
    ensures
        int_sum(p) <= 10 * p.len(),
    decreases p.len(),
{
    if p.len() > 0 {
        assert(forall|k: int|
            0 <= k < p.drop_first().len() ==> (#[trigger] p.drop_first()[k]) == p[k + 1]);
        lemma_int_sum_upper(p.drop_first());
    }
}

/// Law (solvability fallback): the sum of an all-integer pool is reachable
/// whenever addition is offered, by merging the first two slots over and
/// over.
pub proof fn lemma_reaches_by_sum(p: Seq<Rational>, ops: Seq<Operation>, t: Rational)
    requires
        p.len() >= 1,
        forall|k: int| 0 <= k < p.len() ==> (#[trigger] p[k]).d == 1 && p[k].n >= 1,
        int_sum(p) <= i64::MAX,
        ops.len() >= 1,
        ops[0] == Operation::Add,
        t.d == 1,
        t.n == int_sum(p),
    ensures
        reaches(p, ops, t),
    decreases p.len(),
{
    if p.len() == 1 {
        assert(int_sum(p.drop_first()) == 0);
        assert(p[0].same_value(t));
        assert(reaches_via(p, ops, Seq::empty(), t));
    } else {
        let a = p[0];
        let b = p[1];
        let rest = p.subrange(2, p.len() as int);
        assert(p.drop_first().drop_first() =~= rest);
        assert(int_sum(p) == p[0].n + int_sum(p.drop_first()));
        assert(p.drop_first()[0] == p[1] && p.drop_first().len() == p.len() - 1);
        assert(int_sum(p.drop_first()) == p[1].n + int_sum(p.drop_first().drop_first()));
        assert(int_sum(p) == a.n + b.n + int_sum(rest));
        assert(forall|k: int| 0 <= k < rest.len() ==> (#[trigger] rest[k]) == p[k + 2]);
        lemma_int_sum_lower(rest);
        let v = Operation::Add.result(a, b);
        assert(Operation::Add.result_n(a, b) == a.n + b.n && Operation::Add.result_d(a, b) == 1);
        assert(Operation::Add.apply_ok(a, b));
        let merged = crate::resolve::merge_at(p, 0, 1, v);
        assert(merged =~= seq![v] + rest);
        assert(merged.drop_first() =~= rest);
        assert(merged[0] == v && merged.len() >= 1);
        assert(int_sum(merged) == v.n + int_sum(rest));
        assert(int_sum(merged) == int_sum(p));
        assert(forall|k: int| 1 <= k < merged.len() ==> (#[trigger] merged[k]) == p[k + 1]);
        lemma_reaches_by_sum(merged, ops, t);
        assert(crate::resolve::merge_at(p, 0, 1, ops[0].result(p[0], p[1])) == merged);
        lemma_reaches_step(p, ops, t, 0, 1, 0);
    }
}

/// How many failed merge attempts one generation tolerates before it falls
/// back to an additive target. Failures need a zero divisor drawn at
/// random, so the budget is effectively never exhausted, but it bounds the
/// simulation unconditionally.
pub const SIMULATION_ATTEMPTS: u64 = 64;

/// The simulation pool after forward-playing random merges from state `s`
/// with `attempts` failures allowed: while more than one value remains, two
/// distinct slots and one operator are drawn; a successful application
/// merges the pair, a failed one is discarded and retried.
pub open spec fn spec_sim(p: Seq<Rational>, ops: Seq<Operation>, s: u64, attempts: nat) -> Seq<
    Rational,
>
    decreases p.len() + attempts,
{
    if p.len() <= 1 || attempts == 0 || ops.len() == 0 {
        p
    } else {
        let s1 = next_state(s);
        let i = (s1 as int) % (p.len() as int);
        let s2 = next_state(s1);
        let jr = (s2 as int) % (p.len() - 1);
        let j = if jr >= i {
            jr + 1
        } else {
            jr
        };
        let s3 = next_state(s2);
        let k = (s3 as int) % (ops.len() as int);
        if ops[k].apply_ok(p[i], p[j]) {
            spec_sim(
                crate::resolve::merge_at(p, i, j, ops[k].result(p[i], p[j])),
                ops,
                s3,
                attempts,
            )
        } else {
            spec_sim(p, ops, s3, (attempts - 1) as nat)
        }
    }
}

/// Forward-plays random merges over `sim` until one value remains or the
/// attempt budget is exhausted: the deterministic simulation from which the
/// target is read off. Every target reachable from the simulated pool was
/// already reachable from the starting pool.
fn simulate(sim: &mut Vec<Rational>, ops: &Vec<Operation>, rng: &mut XorShift64)
    requires
        old(sim)@.len() >= 1,
        crate::resolve::pool_wf(old(sim)@),
        ops@.len() >= 1,
    ensures
        final(sim)@ == spec_sim(old(sim)@, ops@, old(rng).state, SIMULATION_ATTEMPTS as nat),
        crate::resolve::pool_wf(final(sim)@),
        final(sim)@.len() >= 1,
        forall|t: Rational|
            #[trigger] reaches(final(sim)@, ops@, t) ==> reaches(old(sim)@, ops@, t),
{
    let ghost orig = sim@;
    let ghost s0 = rng.state;
    let mut attempts: u64 = SIMULATION_ATTEMPTS;
    while sim.len() > 1 && attempts > 0
        invariant
            sim@.len() >= 1,
            crate::resolve::pool_wf(sim@),
            ops@.len() >= 1,
            spec_sim(sim@, ops@, rng.state, attempts as nat) == spec_sim(
                orig,
                ops@,
                s0,
                SIMULATION_ATTEMPTS as nat,
            ),
            forall|t: Rational| #[trigger] reaches(sim@, ops@, t) ==> reaches(orig, ops@, t),
        decreases sim@.len() + attempts,
    {
        let ghost pre = sim@;
        let ghost s_pre = rng.state;
        let ghost att_pre = attempts as nat;
        let len = sim.len();
        let r1 = rng.next();
        let i = (r1 % (len as u64)) as usize;
        let r2 = rng.next();
        let jr = (r2 % ((len - 1) as u64)) as usize;
        let j = if jr >= i {
            jr + 1
        } else {
            jr
        };
        let r3 = rng.next();
        let k = (r3 % (ops.len() as u64)) as usize;
        proof {
            assert(i as int == (next_state(s_pre) as int) % (pre.len() as int));
            assert(jr as int == (next_state(next_state(s_pre)) as int) % (pre.len() - 1));
            assert(k as int == (next_state(next_state(next_state(s_pre))) as int) % (
            ops@.len() as int));
        }
        let op = ops[k];
        let a = sim[i];
        let b = sim[j];
        match op.apply(a, b) {
            Ok(v) => {
                sim[i] = v;
                sim.remove(j);
                proof {
                    assert(sim@ == crate::resolve::merge_at(pre, i as int, j as int, v));
                    assert(spec_sim(pre, ops@, s_pre, att_pre) == spec_sim(
                        sim@,
                        ops@,
                        rng.state,
                        attempts as nat,
                    ));
                    assert forall|idx: int| 0 <= idx < sim@.len() implies (
                    #[trigger] sim@[idx]).wf() by {
                        let updated = pre.update(i as int, v);
                        if idx < j {
                            assert(sim@[idx] == updated[idx]);
                        } else {
                            assert(sim@[idx] == updated[idx + 1]);
                        }
                    }
                    assert forall|t: Rational| #[trigger] reaches(sim@, ops@, t) implies reaches(
                        orig,
                        ops@,
                        t,
                    ) by {
                        lemma_reaches_step(pre, ops@, t, i as int, j as int, k as int);
                        assert(reaches(pre, ops@, t));
                    }
                }
            },
            Err(_) => {
                attempts = attempts - 1;
                proof {
                    assert(spec_sim(pre, ops@, s_pre, att_pre) == spec_sim(
                        sim@,
                        ops@,
                        rng.state,
                        attempts as nat,
                    ));
                }
            },
        }
    }
}

/// A copy of the pool, for the simulation to consume.
fn copy_pool(pool: &Vec<Rational>) -> (r: Vec<Rational>)
    ensures
        r@ == pool@,
{
    let mut r: Vec<Rational> = Vec::new();
    let mut k: usize = 0;
    while k < pool.len()
        invariant
            k <= pool@.len(),
            r@ =~= pool@.take(k as int),
        decreases pool@.len() - k,
    {
        r.push(pool[k]);
        k = k + 1;
    }
    proof {
        assert(pool@.take(pool@.len() as int) =~= pool@);
    }
    r
}

/// The sum of an all-integer pool, as a rational.
fn sum_of_pool(pool: &Vec<Rational>) -> (t: Rational)
    requires
        1 <= pool@.len() <= 10,
        forall|k: int| 0 <= k < pool@.len() ==> (#[trigger] pool@[k]).is_integer_in(1, 10),
    ensures
        t.d == 1,
        t.n as int == int_sum(pool@),
        1 <= t.n <= 100,
{
    let mut acc: i64 = 0;
    let mut k: usize = 0;
    proof {
        assert(pool@.skip(0) =~= pool@);
    }
    while k < pool.len()
        invariant
            k <= pool@.len() <= 10,
            forall|m: int| 0 <= m < pool@.len() ==> (#[trigger] pool@[m]).is_integer_in(1, 10),
            acc + int_sum(pool@.skip(k as int)) == int_sum(pool@),
            k <= acc <= 10 * k,
        decreases pool@.len() - k,
    {
        proof {
            assert(pool@.skip(k as int)[0] == pool@[k as int]);
            assert(pool@.skip(k as int).drop_first() =~= pool@.skip(k as int + 1));
            assert(int_sum(pool@.skip(k as int)) == pool@[k as int].n + int_sum(
                pool@.skip(k as int + 1),
            ));
        }
        acc = acc + pool[k].n;
        k = k + 1;
    }
    proof {
        assert(pool@.skip(pool@.len() as int).len() == 0);
        assert(int_sum(pool@.skip(pool@.len() as int)) == 0);
    }
    Rational { n: acc, d: 1 }
}

/// One generated level: the pool the player starts from, the operators the
/// level offers, and the target the final value is compared against.
#[derive(Clone, Debug, PartialEq, Eq)]
pub struct Puzzle {
    pub pool: Vec<Rational>,
    pub operators: Vec<Operation>,
    pub target: Rational,
}

/// The target of a generation: the one value the simulation ends on, or,
/// should the attempt budget ever run out, the sum of the drawn pool (which
/// repeated addition reaches).
pub open spec fn spec_target(seed: u64, level_index: u64) -> Rational {
    let s0 = seeded_state(seed.wrapping_add(level_index));
    let count = spec_pool_count(level_index);
    let pool = spec_pool(s0, count);
    let sim = spec_sim(pool, spec_operators(level_index), state_after(s0, count as nat), SIMULATION_ATTEMPTS as nat);
    if sim.len() == 1 {
        sim[0]
    } else {
        Rational { n: int_sum(pool) as i64, d: 1 }
    }
}

/// Generates the puzzle of a level: a pure function of `(seed, level_index)`
/// alone, so two calls with the same inputs return the identical pool,
/// operator set and target.
///
/// The pool holds `spec_pool_count(level_index)` integers of `[1, 10]`, the
/// operators are the canonical prefix of length
/// `spec_operator_count(level_index)`, and the target is reachable from the
/// pool using only those operators.
pub fn generate_puzzle(seed: u64, level_index: u64) -> (r: Puzzle)
    ensures
        r.pool@ == spec_pool(
            seeded_state(seed.wrapping_add(level_index)),
            spec_pool_count(level_index),
        ),
        r.operators@ == spec_operators(level_index),
        r.target == spec_target(seed, level_index),
        r.pool@.len() == spec_pool_count(level_index),
        forall|k: int| 0 <= k < r.pool@.len() ==> (#[trigger] r.pool@[k]).is_integer_in(1, 10),
        r.operators@.len() == spec_operator_count(level_index),
        r.operators@[0] == Operation::Add,
        r.target.wf(),
        reaches(r.pool@, r.operators@, r.target),
{
    let mut rng = XorShift64::new(seed.wrapping_add(level_index));
    let count = pool_count(level_index);
    let pool = draw_pool(&mut rng, count);
    let ops = level_operators(level_index);
    let mut sim = copy_pool(&pool);
    proof {
        assert(crate::resolve::pool_wf(sim@));
    }
    simulate(&mut sim, &ops, &mut rng);
    let target: Rational;
    if sim.len() == 1 {
        target = sim[0];
        proof {
            assert(reaches_via(sim@, ops@, Seq::empty(), target));
            assert(reaches(sim@, ops@, target));
        }
    } else {
        target = sum_of_pool(&pool);
        proof {
            lemma_int_sum_lower(pool@);
            lemma_int_sum_upper(pool@);
            lemma_reaches_by_sum(pool@, ops@, target);
        }
    }
    Puzzle { pool, operators: ops, target }
}

} // verus!
