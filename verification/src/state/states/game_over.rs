use vstd::prelude::*;

use crate::game_core::piece::Color;
use crate::interface::input::Key;
use crate::state::game_session::{GameSession, SessionView};
use crate::state::transition::StateTransition;

use crate::state::view_data::{ViewData, base_view, plain_view, hint_of, hint_text, opt_text, welcome_texts, move_view, last_move_of};

verus! {

/// The end of the game, with its winner (none for a draw).
#[derive(Debug, Clone, Copy, PartialEq, Eq, Structural)]
pub struct GameOverState {
    pub winner: Option<Color>,
}

impl GameOverState {
    pub fn new(winner: Option<Color>) -> (s: GameOverState)
        ensures
            s.winner == winner,
    {
        GameOverState { winner }
    }

    /// Escape leaves; every other key is ignored.
    pub open spec fn step(self, s: SessionView, key: Key) -> (SessionView, StateTransition) {
        (s, if key == Key::Esc { StateTransition::Exit } else { StateTransition::Stay })
    }

    pub fn handle_input(&self, session: &GameSession, key: Key) -> (res: (GameSession, StateTransition))
        requires
            session.wf(),
        ensures
            (res.0@, res.1) == self.step(session@, key),
            res.0.wf(),
    {
        let transition = match key {
            Key::Esc => StateTransition::Exit,
            _ => StateTransition::Stay,
        };
        (session.clone(), transition)
    }
}


/// The closing message for the winner (none for a draw).
pub open spec fn game_over_message(winner: Option<Color>) -> Seq<char> {
    match winner {
        Some(Color::White) => "White wins! Press ESC to exit"@,
        Some(Color::Black) => "Black wins! Press ESC to exit"@,
        None => "Stalemate! No possible moves. Press ESC to exit"@,
    }
}

impl GameOverState {
    /// What the screen shows of `session`.
    pub open spec fn shows(&self, v: &ViewData, session: &GameSession, simple_ai: bool) -> bool {
        &&& base_view(v, session, game_over_message(self.winner), simple_ai)
        &&& v.selected_piece is None
        &&& v.possible_moves@ == Seq::<(usize, usize)>::empty()
        &&& !v.show_ai_thinking
        &&& v.error_message is None
        &&& v.hint is None
        &&& v.is_game_over
        &&& v.welcome_content is None
    }

    /// The closing message.
    pub fn get_view_data<'a>(&self, session: &'a GameSession, simple_ai: bool) -> (v: ViewData<'a>)
        ensures
            self.shows(&v, session, simple_ai),
    {
        let message = match self.winner {
            Some(Color::White) => String::from_str("White wins! Press ESC to exit"),
            Some(Color::Black) => String::from_str("Black wins! Press ESC to exit"),
            None => String::from_str("Stalemate! No possible moves. Press ESC to exit"),
        };
        let mut v = plain_view(session, message, simple_ai);
        v.is_game_over = true;
        v
    }
}

} // verus!
