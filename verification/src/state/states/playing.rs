use vstd::prelude::*;

use crate::board::at;
use crate::game_core::piece::Color;
use crate::interface::input::Key;
use crate::state::game_session::{GameSession, SessionView, select_outcome};
use crate::state::machine::AnyState;
use crate::state::states::{cursor_step, is_arrow, move_cursor, AITurnState, PieceSelectedState};
use crate::state::transition::StateTransition;

use crate::state::view_data::{ViewData, base_view, plain_view, hint_of, hint_text, opt_text, welcome_texts, move_view, last_move_of};

verus! {

/// The player's turn, nothing selected.
#[derive(Debug, Clone, Copy, PartialEq, Eq, Structural)]
pub struct PlayingState;

/// The session after the piece under the cursor is picked: it is selected
/// if the rules allow, else the session is left as it was.
pub open spec fn picked(s: SessionView) -> SessionView {
    match select_outcome(s, s.ui.cursor.0, s.ui.cursor.1) {
        Ok(s2) => s2,
        Err(_) => s,
    }
}

impl PlayingState {
    pub fn new() -> (s: PlayingState) {
        PlayingState
    }

    /// On black's turn the computer plays. Otherwise the arrows move the
    /// cursor, Space or Enter picks a piece of the side to move under the
    /// cursor, Escape or `q` leaves.
    pub open spec fn step(self, s: SessionView, key: Key) -> (SessionView, StateTransition) {
        if s.game.player == Color::Black {
            (s, StateTransition::To(AnyState::AITurn(AITurnState { move_requested: false })))
        } else if is_arrow(key) {
            (cursor_step(s, key), StateTransition::Stay)
        } else if key == Key::Char(' ') || key == Key::Enter {
            match at(s.game.board, s.ui.cursor.0 as int, s.ui.cursor.1 as int) {
                Some(p) => if p.color == s.game.player {
                    (picked(s), StateTransition::To(AnyState::PieceSelected(PieceSelectedState { selected_pos: s.ui.cursor })))
                } else {
                    (s, StateTransition::Stay)
                },
                None => (s, StateTransition::Stay),
            }
        } else if key == Key::Esc || key == Key::Char('q') {
            (s, StateTransition::Exit)
        } else {
            (s, StateTransition::Stay)
        }
    }

    pub fn handle_input(&self, session: &GameSession, key: Key) -> (res: (GameSession, StateTransition))
        requires
            session.wf(),
        ensures
            (res.0@, res.1) == self.step(session@, key),
            res.0.wf(),
    {
        if session.game.current_player == Color::Black {
            return (session.clone(), StateTransition::To(AnyState::AITurn(AITurnState::new())));
        }
        match key {
            Key::Up | Key::Down | Key::Left | Key::Right => (move_cursor(session, key), StateTransition::Stay),
            Key::Enter => Self::pick(session),
            Key::Char(c) => {
                if c == ' ' {
                    Self::pick(session)
                } else if c == 'q' {
                    (session.clone(), StateTransition::Exit)
                } else {
                    (session.clone(), StateTransition::Stay)
                }
            },
            Key::Esc => (session.clone(), StateTransition::Exit),
            _ => (session.clone(), StateTransition::Stay),
        }
    }

    fn pick(session: &GameSession) -> (res: (GameSession, StateTransition))
        requires
            session.wf(),
        ensures
            res.0.wf(),
            (res.0@, res.1) == match at(session@.game.board, session@.ui.cursor.0 as int, session@.ui.cursor.1 as int) {
                Some(p) => if p.color == session@.game.player {
                    (picked(session@), StateTransition::To(AnyState::PieceSelected(PieceSelectedState { selected_pos: session@.ui.cursor })))
                } else {
                    (session@, StateTransition::Stay)
                },
                None => (session@, StateTransition::Stay),
            },
    {
        let cursor_pos = session.ui_state.cursor_pos;
        if let Some(piece) = session.game.board.get_piece(cursor_pos.0, cursor_pos.1) {
            if piece.color == session.game.current_player {
                let selected = match session.select_piece(cursor_pos.0, cursor_pos.1) {
                    Ok(s) => s,
                    Err(_) => session.clone(),
                };
                return (selected, StateTransition::To(AnyState::PieceSelected(PieceSelectedState::new(cursor_pos))));
            }
        }
        (session.clone(), StateTransition::Stay)
    }
}


impl PlayingState {
    /// What the screen shows of `session`.
    pub open spec fn shows(&self, v: &ViewData, session: &GameSession, simple_ai: bool) -> bool {
        &&& base_view(v, session, if session.game.current_player == Color::White { "White's turn"@ } else { "Black's turn"@ }, simple_ai)
        &&& v.selected_piece == session.ui_state.selected_piece
        &&& v.possible_moves@ == session.ui_state.possible_moves@
        &&& !v.show_ai_thinking
        &&& v.error_message is None
        &&& move_view(v.last_move) == last_move_of(session)
        &&& hint_text(v.hint) == session@.hint
        &&& !v.is_game_over
        &&& v.welcome_content is None
    }

    /// Whose turn it is, the selection and the hint.
    pub fn get_view_data<'a>(&self, session: &'a GameSession, simple_ai: bool) -> (v: ViewData<'a>)
        ensures
            self.shows(&v, session, simple_ai),
    {
        let status = if session.game.current_player == Color::White {
            String::from_str("White's turn")
        } else {
            String::from_str("Black's turn")
        };
        let mut v = plain_view(session, status, simple_ai);
        v.selected_piece = session.ui_state.selected_piece;
        v.possible_moves = session.ui_state.possible_moves.as_slice();
        v.last_move = session.game.move_history.get_last_move();
        v.hint = hint_of(session);
        v
    }
}

} // verus!
