use vstd::prelude::*;

use crate::interface::input::Key;
use crate::state::game_session::{GameSession, SessionView, multicapture_outcome};
use crate::state::states::piece_selected::contains_square;
use crate::state::states::{after_move_step, cursor_step, finish_move, is_arrow, move_cursor};
use crate::state::transition::StateTransition;

use crate::state::view_data::{ViewData, base_view, plain_view, hint_of, hint_text, opt_text, welcome_texts, move_view, last_move_of};

verus! {

/// A piece has jumped and must jump again.
#[derive(Debug, Clone, Copy, PartialEq, Eq)]
pub struct MultiCaptureState {
    pub capturing_piece: (usize, usize),
}

impl MultiCaptureState {
    pub fn new(capturing_piece: (usize, usize)) -> (s: MultiCaptureState)
        ensures
            s.capturing_piece == capturing_piece,
    {
        MultiCaptureState { capturing_piece }
    }

    /// The arrows move the cursor; picking a square the piece may reach plays
    /// the jump (its whole capture sequence if it has one) and goes on as
    /// `after_move_step` says. Nothing else does anything: the capture
    /// cannot be left.
    pub open spec fn step(self, s: SessionView, key: Key) -> (SessionView, StateTransition) {
        let cursor = s.ui.cursor;
        if is_arrow(key) {
            (cursor_step(s, key), StateTransition::Stay)
        } else if (key == Key::Char(' ') || key == Key::Enter) && s.ui.moves.contains(cursor) {
            match multicapture_outcome(s, cursor.0, cursor.1) {
                Ok((s2, cont, _)) => after_move_step(s2, cont, cursor),
                Err(_) => (s, StateTransition::Stay),
            }
        } else {
            (s, StateTransition::Stay)
        }
    }

    pub fn handle_input(&self, session: &GameSession, key: Key) -> (res: (GameSession, StateTransition))
        requires
            session.wf(),
        ensures
            (res.0@, res.1) == self.step(session@, key),
            res.0.wf(),
    {
        let select = match key {
            Key::Up | Key::Down | Key::Left | Key::Right => {
                return (move_cursor(session, key), StateTransition::Stay);
            },
            Key::Enter => true,
            Key::Char(c) => c == ' ',
            _ => false,
        };
        let cursor = session.ui_state.cursor_pos;
        if select && contains_square(&session.ui_state.possible_moves, cursor) {
            match session.try_multicapture_move(cursor.0, cursor.1) {
                Ok((updated, continue_capture, _positions)) => finish_move(updated, continue_capture, cursor),
                Err(_) => (session.clone(), StateTransition::Stay),
            }
        } else {
            (session.clone(), StateTransition::Stay)
        }
    }
}


impl MultiCaptureState {
    /// What the screen shows of `session`.
    pub open spec fn shows(&self, v: &ViewData, session: &GameSession, simple_ai: bool) -> bool {
        &&& base_view(v, session, "You must continue capturing!"@, simple_ai)
        &&& v.selected_piece == Some(self.capturing_piece)
        &&& v.possible_moves@ == session.ui_state.possible_moves@
        &&& !v.show_ai_thinking
        &&& v.error_message is None
        &&& v.last_move is None
        &&& hint_text(v.hint) == session@.hint
        &&& !v.is_game_over
        &&& v.welcome_content is None
    }

    /// The capturing piece and where it may jump.
    pub fn get_view_data<'a>(&self, session: &'a GameSession, simple_ai: bool) -> (v: ViewData<'a>)
        ensures
            self.shows(&v, session, simple_ai),
    {
        let mut v = plain_view(session, String::from_str("You must continue capturing!"), simple_ai);
        v.selected_piece = Some(self.capturing_piece);
        v.possible_moves = session.ui_state.possible_moves.as_slice();
        v.hint = hint_of(session);
        v
    }
}

} // verus!
