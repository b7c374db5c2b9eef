use vstd::prelude::*;

use crate::interface::input::Key;
use crate::state::game_session::{GameSession, SessionView};
use crate::state::machine::AnyState;
use crate::state::transition::StateTransition;

use crate::state::view_data::{ViewData, base_view, plain_view, hint_of, hint_text, opt_text, welcome_texts, move_view, last_move_of};

verus! {

/// The three texts of the welcome screen.
pub struct WelcomeContent {
    pub did_you_know: String,
    pub tip_of_the_day: String,
    pub todays_challenge: String,
}

impl View for WelcomeContent {
    type V = (Seq<char>, Seq<char>, Seq<char>);

    open spec fn view(&self) -> (Seq<char>, Seq<char>, Seq<char>) {
        (self.did_you_know@, self.tip_of_the_day@, self.todays_challenge@)
    }
}

impl Clone for WelcomeContent {
    fn clone(&self) -> (res: Self)
        ensures
            res@ == self@,
    {
        WelcomeContent {
            did_you_know: self.did_you_know.clone(),
            tip_of_the_day: self.tip_of_the_day.clone(),
            todays_challenge: self.todays_challenge.clone(),
        }
    }
}

/// The welcome screen.
#[derive(Debug, Clone, Copy, PartialEq, Eq, Structural)]
pub struct WelcomeState;

impl WelcomeState {
    pub fn new() -> (s: WelcomeState) {
        WelcomeState
    }

    /// Enter starts the game; Escape or `q` leaves.
    pub open spec fn step(self, s: SessionView, key: Key) -> (SessionView, StateTransition) {
        (s, if key == Key::Enter {
            StateTransition::To(AnyState::Playing(crate::state::states::PlayingState))
        } else if key == Key::Esc || key == Key::Char('q') {
            StateTransition::Exit
        } else {
            StateTransition::Stay
        })
    }

    pub fn handle_input(&self, session: &GameSession, key: Key) -> (res: (GameSession, StateTransition))
        requires
            session.wf(),
        ensures
            (res.0@, res.1) == self.step(session@, key),
            res.0.wf(),
    {
        let transition = match key {
            Key::Enter => StateTransition::To(AnyState::Playing(crate::state::states::PlayingState::new())),
            Key::Esc => StateTransition::Exit,
            Key::Char(c) => if c == 'q' { StateTransition::Exit } else { StateTransition::Stay },
            _ => StateTransition::Stay,
        };
        (session.clone(), transition)
    }
}

impl Default for WelcomeState {
    fn default() -> (s: Self) {
        WelcomeState
    }
}


impl WelcomeState {
    /// What the screen shows of `session`.
    pub open spec fn shows(&self, v: &ViewData, session: &GameSession, simple_ai: bool) -> bool {
        &&& base_view(v, session, "Welcome to Checkers!"@, simple_ai)
        &&& v.selected_piece is None
        &&& v.possible_moves@ == Seq::<(usize, usize)>::empty()
        &&& !v.show_ai_thinking
        &&& v.error_message is None
        &&& v.hint is None
        &&& !v.is_game_over
        &&& welcome_texts(v.welcome_content) == session@.welcome
    }

    /// The welcome screen shows the welcome texts.
    pub fn get_view_data<'a>(&self, session: &'a GameSession, simple_ai: bool) -> (v: ViewData<'a>)
        ensures
            self.shows(&v, session, simple_ai),
    {
        let mut v = plain_view(session, String::from_str("Welcome to Checkers!"), simple_ai);
        v.welcome_content = match &session.welcome_content {
            Some(content) => Some((
                content.did_you_know.as_str(),
                content.tip_of_the_day.as_str(),
                content.todays_challenge.as_str(),
            )),
            None => None,
        };
        v
    }
}

} // verus!
