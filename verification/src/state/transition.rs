use vstd::prelude::*;

use crate::state::machine::AnyState;

verus! {

/// What a screen asks for after an input: stay, go to another screen, or
/// leave the game.
#[derive(Debug, Clone, Copy)]
pub enum StateTransition {
    Stay,
    To(AnyState),
    Exit,
}

/// Two transitions are equal when both stay or both leave; transitions to
/// a screen are never equal, not even to themselves.
pub open spec fn same_transition(a: StateTransition, b: StateTransition) -> bool {
    match (a, b) {
        (StateTransition::Stay, StateTransition::Stay) => true,
        (StateTransition::Exit, StateTransition::Exit) => true,
        _ => false,
    }
}

impl PartialEq for StateTransition {
    fn eq(&self, other: &Self) -> (res: bool) {
        match (self, other) {
            (StateTransition::Stay, StateTransition::Stay) => true,
            (StateTransition::Exit, StateTransition::Exit) => true,
            _ => false,
        }
    }
}

impl vstd::std_specs::cmp::PartialEqSpecImpl for StateTransition {
    open spec fn obeys_eq_spec() -> bool {
        true
    }

    open spec fn eq_spec(&self, other: &Self) -> bool {
        same_transition(*self, *other)
    }
}

} // verus!
