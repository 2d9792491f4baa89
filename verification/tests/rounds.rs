use math_it::{Operation, PlayRound, Selection, SlotHighlight};

fn slot(id: u64, index: usize) -> Selection {
    Selection { slot: id, index }
}

#[test]
fn selecting_twice_restores_prior_state() {
    let mut round = PlayRound::new();
    let before = round;
    round.select_slot(slot(3, 0));
    assert_eq!(round.number1, Some(slot(3, 0)));
    round.select_slot(slot(3, 0));
    assert_eq!(round, before);
}

#[test]
fn selecting_twice_restores_second_operand() {
    let mut round = PlayRound::new();
    round.select_slot(slot(1, 0));
    let before = round;
    round.select_slot(slot(2, 1));
    assert_eq!(round.number2, Some(slot(2, 1)));
    round.select_slot(slot(2, 1));
    assert_eq!(round, before);
}

#[test]
fn third_distinct_slot_is_ignored() {
    let mut round = PlayRound::new();
    round.select_slot(slot(1, 0));
    round.select_slot(slot(2, 1));
    let before = round;
    round.select_slot(slot(3, 2));
    assert_eq!(round, before);
}

#[test]
fn operator_toggles_off_on_reselection() {
    let mut round = PlayRound::new();
    round.select_operator(Operation::Multiply);
    assert_eq!(round.operation, Some(Operation::Multiply));
    round.select_operator(Operation::Multiply);
    assert_eq!(round.operation, None);
}

#[test]
fn different_operator_while_bound_is_ignored() {
    let mut round = PlayRound::new();
    round.select_operator(Operation::Add);
    round.select_operator(Operation::Divide);
    assert_eq!(round.operation, Some(Operation::Add));
}

#[test]
fn round_is_ready_with_all_three_picks() {
    let mut round = PlayRound::new();
    assert!(!round.is_ready());
    round.select_slot(slot(1, 0));
    round.select_operator(Operation::Add);
    assert!(!round.is_ready());
    round.select_slot(slot(2, 1));
    assert!(round.is_ready());
}

#[test]
fn reset_clears_everything() {
    let mut round = PlayRound::new();
    round.select_slot(slot(1, 0));
    round.select_slot(slot(2, 1));
    round.select_operator(Operation::Subtract);
    round.reset();
    assert_eq!(round, PlayRound::new());
}

#[test]
fn slot_highlights_distinguish_operands() {
    let mut round = PlayRound::new();
    round.select_slot(slot(1, 0));
    round.select_slot(slot(2, 1));
    assert_eq!(round.slot_highlight(1), Some(SlotHighlight::FirstOperand));
    assert_eq!(round.slot_highlight(2), Some(SlotHighlight::SecondOperand));
    assert_eq!(round.slot_highlight(3), None);
}

#[test]
fn operator_highlight_follows_selection() {
    let mut round = PlayRound::new();
    assert!(!round.operator_highlight(Operation::Add));
    round.select_operator(Operation::Add);
    assert!(round.operator_highlight(Operation::Add));
    assert!(!round.operator_highlight(Operation::Divide));
}

#[test]
fn deselecting_first_operand_keeps_second() {
    let mut round = PlayRound::new();
    round.select_slot(slot(1, 0));
    round.select_slot(slot(2, 1));
    round.select_slot(slot(1, 0));
    assert_eq!(round.number1, None);
    assert_eq!(round.number2, Some(slot(2, 1)));
    // The freed first operand binds before the second one does.
    round.select_slot(slot(4, 3));
    assert_eq!(round.number1, Some(slot(4, 3)));
}
