//! The in-progress selection state machine of one round: the player binds a
//! first operand, a second operand and an operator, with toggle semantics on
//! re-selection, until all three are set and the resolver can fire.

use vstd::prelude::*;
use crate::op::Operation;

verus! {

/// A reference to one displayed pool slot: a stable identity token minted
/// per slot, and the pool index the slot stands for, re-validated against
/// the pool only at resolution time.
#[derive(Clone, Copy, Debug, PartialEq, Eq, Structural)]
pub struct Selection {
    pub slot: u64,
    pub index: usize,
}

/// The pending picks of one round. Created empty at level start and reset
/// to empty after every resolution, successful or failed.
#[derive(Clone, Copy, Debug, PartialEq, Eq, Structural)]
pub struct PlayRound {
    pub operation: Option<Operation>,
    pub number1: Option<Selection>,
    pub number2: Option<Selection>,
}

impl PlayRound {
    /// The state with nothing selected.
    pub open spec fn empty_spec() -> PlayRound {
        PlayRound { operation: None, number1: None, number2: None }
    }

    /// At most one operand references a given slot.
    pub open spec fn wf(self) -> bool {
        self.number1 is Some && self.number2 is Some ==> self.number1.unwrap().slot
            != self.number2.unwrap().slot
    }

    /// All three picks are bound: the resolver may fire.
    pub open spec fn is_ready_spec(self) -> bool {
        self.operation is Some && self.number1 is Some && self.number2 is Some
    }

    /// Some operand is bound to the slot with identity `slot`.
    pub open spec fn references_slot(self, slot: u64) -> bool {
        ||| (self.number1 is Some && self.number1.unwrap().slot == slot)
        ||| (self.number2 is Some && self.number2.unwrap().slot == slot)
    }

    /// The state after the player selects pool slot `sel`: an operand
    /// already bound to that slot toggles off; otherwise the first unset
    /// operand binds it; with both operands bound the pick is ignored.
    pub open spec fn after_select_slot(self, sel: Selection) -> PlayRound {
        if self.number1 is Some && self.number1.unwrap().slot == sel.slot {
            PlayRound { number1: None, ..self }
        } else if self.number2 is Some && self.number2.unwrap().slot == sel.slot {
            PlayRound { number2: None, ..self }
        } else if self.number1 is None {
            PlayRound { number1: Some(sel), ..self }
        } else if self.number2 is None {
            PlayRound { number2: Some(sel), ..self }
        } else {
            self
        }
    }

    /// The state after the player selects operator `op`: the bound operator
    /// toggles off when re-selected; an unset operator binds; a different
    /// operator while one is bound is ignored.
    pub open spec fn after_select_operator(self, op: Operation) -> PlayRound {
        if self.operation is Some && self.operation.unwrap() == op {
            PlayRound { operation: None, ..self }
        } else if self.operation is None {
            PlayRound { operation: Some(op), ..self }
        } else {
            self
        }
    }

    /// A round with nothing selected.
    pub fn new() -> (r: PlayRound)
        ensures
            r == PlayRound::empty_spec(),
    {
        PlayRound { operation: None, number1: None, number2: None }
    }

    /// Clears every pick.
    pub fn reset(&mut self)
        ensures
            *final(self) == PlayRound::empty_spec(),
    {
        self.operation = None;
        self.number1 = None;
        self.number2 = None;
    }

    /// Applies one pool-slot selection, with toggle semantics.
    pub fn select_slot(&mut self, sel: Selection)
        requires
            old(self).wf(),
        ensures
            *final(self) == old(self).after_select_slot(sel),
            final(self).wf(),
    {
        match self.number1 {
            Some(n1) if n1.slot == sel.slot => {
                self.number1 = None;
                return ;
            },
            _ => {},
        }
        match self.number2 {
            Some(n2) if n2.slot == sel.slot => {
                self.number2 = None;
                return ;
            },
            _ => {},
        }
        if self.number1.is_none() {
            self.number1 = Some(sel);
        } else if self.number2.is_none() {
            self.number2 = Some(sel);
        }
    }

    /// Applies one operator selection, with toggle semantics.
    pub fn select_operator(&mut self, op: Operation)
        requires
            old(self).wf(),
        ensures
            *final(self) == old(self).after_select_operator(op),
            final(self).wf(),
    {
        match self.operation {
            Some(o) if o == op => {
                self.operation = None;
                return ;
            },
            _ => {},
        }
        if self.operation.is_none() {
            self.operation = Some(op);
        }
    }

    /// All three picks are bound.
    pub fn is_ready(&self) -> (r: bool)
        ensures
            r == self.is_ready_spec(),
    {
        self.operation.is_some() && self.number1.is_some() && self.number2.is_some()
    }

    /// The highlight a displayed slot should carry: first and second operand
    /// are visually distinct. A derived read-only projection of the state.
    pub fn slot_highlight(&self, slot: u64) -> (r: Option<SlotHighlight>)
        ensures
            r == Some(SlotHighlight::FirstOperand) <==> (self.number1 is Some
                && self.number1.unwrap().slot == slot),
            r == Some(SlotHighlight::SecondOperand) <==> (!(self.number1 is Some
                && self.number1.unwrap().slot == slot) && self.number2 is Some
                && self.number2.unwrap().slot == slot),
            r is None <==> !self.references_slot(slot),
    {
        match self.number1 {
            Some(n1) if n1.slot == slot => {
                return Some(SlotHighlight::FirstOperand);
            },
            _ => {},
        }
        match self.number2 {
            Some(n2) if n2.slot == slot => {
                return Some(SlotHighlight::SecondOperand);
            },
            _ => {},
        }
        None
    }

    /// Whether a displayed operator should be highlighted as selected.
    pub fn operator_highlight(&self, op: Operation) -> (r: bool)
        ensures
            r == (self.operation is Some && self.operation.unwrap() == op),
    {
        match self.operation {
            Some(o) => o == op,
            None => false,
        }
    }
}

/// Which operand a selected slot is bound to, for rendering.
#[derive(Clone, Copy, Debug, PartialEq, Eq, Structural)]
pub enum SlotHighlight {
    FirstOperand,
    SecondOperand,
}

/// Law: selecting the same slot twice is a no-op over the pair. From a state
/// that does not yet reference the slot, the first selection either binds an
/// operand (which the second selection toggles back off) or is ignored with
/// both operands full (and so is the second).
pub proof fn lemma_slot_toggle_restores_state(st: PlayRound, sel: Selection)
    requires
        st.wf(),
        !st.references_slot(sel.slot),
    ensures
        st.after_select_slot(sel).after_select_slot(sel) == st,
{
}

/// Law: selecting the same operator twice is a no-op over the pair, from a
/// state whose bound operator (if any) is a different one.
pub proof fn lemma_operator_toggle_restores_state(st: PlayRound, op: Operation)
    requires
        !(st.operation is Some && st.operation.unwrap() == op),
    ensures
        st.after_select_operator(op).after_select_operator(op) == st,
{
}

/// Law: a third distinct slot, selected while both operands are bound,
/// changes nothing.
pub proof fn lemma_no_double_binding(st: PlayRound, sel: Selection)
    requires
        st.number1 is Some,
        st.number2 is Some,
        !st.references_slot(sel.slot),
    ensures
        st.after_select_slot(sel) == st,
{
}

} // verus!
