use math_it::resolve::resolve_round;
use math_it::{GameResult, MergeOutcome, Operation, PlayRound, Rational, Selection};

fn integer(n: i64) -> Rational {
    Rational { n, d: 1 }
}

fn ready_round(op: Operation, index1: usize, index2: usize) -> PlayRound {
    let mut round = PlayRound::new();
    round.select_slot(Selection { slot: index1 as u64, index: index1 });
    round.select_slot(Selection { slot: index2 as u64, index: index2 });
    round.select_operator(op);
    round
}

#[test]
fn addition_merges_pool_and_completes() {
    let mut pool = vec![integer(3), integer(4)];
    let mut round = ready_round(Operation::Add, 0, 1);
    let target = integer(7);
    let outcome = resolve_round(&mut pool, &mut round, target);
    assert_eq!(pool, vec![integer(7)]);
    assert_eq!(round, PlayRound::new());
    assert_eq!(
        outcome,
        MergeOutcome::Completed(GameResult { last_number: integer(7), target_number: target })
    );
}

#[test]
fn division_by_zero_fails_and_keeps_pool() {
    let mut pool = vec![integer(5), integer(0)];
    let mut round = ready_round(Operation::Divide, 0, 1);
    let outcome = resolve_round(&mut pool, &mut round, integer(5));
    assert_eq!(outcome, MergeOutcome::Failed);
    assert_eq!(pool, vec![integer(5), integer(0)]);
    assert_eq!(round, PlayRound::new());
}

#[test]
fn merge_on_larger_pool_continues_play() {
    let mut pool = vec![integer(3), integer(4), integer(5)];
    let mut round = ready_round(Operation::Multiply, 2, 0);
    let outcome = resolve_round(&mut pool, &mut round, integer(1));
    assert_eq!(outcome, MergeOutcome::Merged);
    // The first operand's slot takes the product, then the second operand's
    // slot is removed, shifting later indices down.
    assert_eq!(pool, vec![integer(4), integer(15)]);
}

#[test]
fn subtraction_can_go_negative() {
    let mut pool = vec![integer(3), integer(10)];
    let mut round = ready_round(Operation::Subtract, 0, 1);
    let outcome = resolve_round(&mut pool, &mut round, integer(-7));
    assert_eq!(pool, vec![integer(-7)]);
    assert_eq!(
        outcome,
        MergeOutcome::Completed(GameResult {
            last_number: integer(-7),
            target_number: integer(-7)
        })
    );
}

#[test]
fn division_leaves_exact_fraction() {
    let mut pool = vec![integer(5), integer(2), integer(9)];
    let mut round = ready_round(Operation::Divide, 0, 1);
    let outcome = resolve_round(&mut pool, &mut round, integer(0));
    assert_eq!(outcome, MergeOutcome::Merged);
    assert_eq!(pool, vec![Rational { n: 5, d: 2 }, integer(9)]);
}

#[test]
fn default_game_result_is_zero_against_zero() {
    let r = GameResult::default();
    assert_eq!(r.last_number, integer(0));
    assert_eq!(r.target_number, integer(0));
}
