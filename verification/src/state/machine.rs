use vstd::prelude::*;

use crate::interface::input::Key;
use crate::state::game_session::{GameSession, SessionView};
use crate::state::states::{
    AITurnState, GameOverState, MultiCaptureState, PieceSelectedState, PlayingState, WelcomeState,
};
use crate::state::transition::StateTransition;
use crate::state::StateType;
use crate::state::view_data::ViewData;

verus! {

/// The screen the game is on, with what that screen remembers.
#[derive(Debug, Clone, Copy, PartialEq, Eq)]
pub enum AnyState {
    Welcome(WelcomeState),
    Playing(PlayingState),
    PieceSelected(PieceSelectedState),
    AITurn(AITurnState),
    MultiCapture(MultiCaptureState),
    GameOver(GameOverState),
}

/// The kind of a screen.
pub open spec fn state_type_of(s: AnyState) -> StateType {
    match s {
        AnyState::Welcome(_) => StateType::Welcome,
        AnyState::Playing(_) => StateType::Playing,
        AnyState::PieceSelected(_) => StateType::PieceSelected,
        AnyState::AITurn(_) => StateType::AITurn,
        AnyState::MultiCapture(_) => StateType::MultiCapture,
        AnyState::GameOver(_) => StateType::GameOver,
    }
}

/// What the screen `st` does with key `key` in session `s`.
pub open spec fn state_step(st: AnyState, s: SessionView, key: Key) -> (SessionView, StateTransition) {
    match st {
        AnyState::Welcome(w) => w.step(s, key),
        AnyState::Playing(p) => p.step(s, key),
        AnyState::PieceSelected(p) => p.step(s, key),
        AnyState::AITurn(a) => a.step(s),
        AnyState::MultiCapture(m) => m.step(s, key),
        AnyState::GameOver(g) => g.step(s, key),
    }
}

/// The screen after a transition: the target of `To`, else the same screen.
pub open spec fn next_state(st: AnyState, t: StateTransition) -> AnyState {
    match t {
        StateTransition::To(n) => n,
        _ => st,
    }
}

/// Runs the screens: hands each input to the current screen and follows the
/// transitions it asks for.
pub struct StateMachine {
    current_state: AnyState,
}

impl View for StateMachine {
    type V = AnyState;

    closed spec fn view(&self) -> AnyState {
        self.current_state
    }
}

impl StateMachine {
    pub fn new(initial_state: AnyState) -> (m: StateMachine)
        ensures
            m@ == initial_state,
    {
        StateMachine { current_state: initial_state }
    }

    pub fn current_state(&self) -> (s: AnyState)
        ensures
            s == self@,
    {
        self.current_state
    }

    pub fn handle_input(&self, session: &GameSession, key: Key) -> (res: (GameSession, StateTransition))
        requires
            session.wf(),
        ensures
            (res.0@, res.1) == state_step(self@, session@, key),
            res.0.wf(),
    {
        match self.current_state {
            AnyState::Welcome(w) => w.handle_input(session, key),
            AnyState::Playing(p) => p.handle_input(session, key),
            AnyState::PieceSelected(p) => p.handle_input(session, key),
            AnyState::AITurn(a) => a.handle_input(session, key),
            AnyState::MultiCapture(m) => m.handle_input(session, key),
            AnyState::GameOver(g) => g.handle_input(session, key),
        }
    }

    /// What the current screen shows.
    pub fn get_view_data<'a>(&self, session: &'a GameSession, simple_ai: bool) -> (v: ViewData<'a>)
        ensures
            match self@ {
                AnyState::Welcome(w) => w.shows(&v, session, simple_ai),
                AnyState::Playing(p) => p.shows(&v, session, simple_ai),
                AnyState::PieceSelected(p) => p.shows(&v, session, simple_ai),
                AnyState::AITurn(a) => a.shows(&v, session, simple_ai),
                AnyState::MultiCapture(m) => m.shows(&v, session, simple_ai),
                AnyState::GameOver(g) => g.shows(&v, session, simple_ai),
            },
    {
        match self.current_state {
            AnyState::Welcome(w) => w.get_view_data(session, simple_ai),
            AnyState::Playing(p) => p.get_view_data(session, simple_ai),
            AnyState::PieceSelected(p) => p.get_view_data(session, simple_ai),
            AnyState::AITurn(a) => a.get_view_data(session, simple_ai),
            AnyState::MultiCapture(m) => m.get_view_data(session, simple_ai),
            AnyState::GameOver(g) => g.get_view_data(session, simple_ai),
        }
    }

    pub fn current_state_type(&self) -> (t: StateType)
        ensures
            t == state_type_of(self@),
    {
        match self.current_state {
            AnyState::Welcome(_) => StateType::Welcome,
            AnyState::Playing(_) => StateType::Playing,
            AnyState::PieceSelected(_) => StateType::PieceSelected,
            AnyState::AITurn(_) => StateType::AITurn,
            AnyState::MultiCapture(_) => StateType::MultiCapture,
            AnyState::GameOver(_) => StateType::GameOver,
        }
    }

    pub fn process_transition(&mut self, transition: StateTransition)
        ensures
            final(self)@ == next_state(old(self)@, transition),
    {
        match transition {
            StateTransition::Stay => {},
            StateTransition::To(new_state) => {
                self.current_state = new_state;
            },
            StateTransition::Exit => {},
        }
    }
}

} // verus!
