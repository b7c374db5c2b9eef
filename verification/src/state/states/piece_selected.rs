use vstd::prelude::*;

use crate::interface::input::Key;
use crate::state::game_session::{GameSession, SessionView, multicapture_outcome, with_ui};
use crate::state::machine::AnyState;
use crate::state::states::{after_move_step, cursor_step, finish_move, is_arrow, move_cursor, PlayingState};
use crate::state::transition::StateTransition;
use crate::state::ui_state::cleared;

use crate::state::view_data::{ViewData, base_view, plain_view, hint_of, hint_text, opt_text, welcome_texts, move_view, last_move_of};

verus! {

/// A piece of the player is selected.
#[derive(Debug, Clone, Copy, PartialEq, Eq)]
pub struct PieceSelectedState {
    pub selected_pos: (usize, usize),
}

/// Leaving the screen drops the selection of the piece, if it is still selected.
pub open spec fn left_selection(s: SessionView, pos: (usize, usize)) -> SessionView {
    if s.ui.selected == Some(pos) {
        with_ui(s, cleared(s.ui))
    } else {
        s
    }
}

/// The session with the hint taken away.
pub open spec fn without_hint(s: SessionView) -> SessionView {
    SessionView { hint: None, ..s }
}

impl PieceSelectedState {
    pub fn new(selected_pos: (usize, usize)) -> (s: PieceSelectedState)
        ensures
            s.selected_pos == selected_pos,
    {
        PieceSelectedState { selected_pos }
    }

    /// The arrows move the cursor. Escape, or picking the selected piece
    /// again, drops the selection. Picking a square the piece may reach
    /// plays the move (its whole capture sequence if it has one), takes the
    /// hint away, and goes on as `after_move_step` says; a refused move
    /// changes nothing.
    pub open spec fn step(self, s: SessionView, key: Key) -> (SessionView, StateTransition) {
        let cursor = s.ui.cursor;
        if is_arrow(key) {
            (cursor_step(s, key), StateTransition::Stay)
        } else if key == Key::Esc {
            (left_selection(s, self.selected_pos), StateTransition::To(AnyState::Playing(PlayingState)))
        } else if key == Key::Char(' ') || key == Key::Enter {
            if cursor == self.selected_pos {
                (left_selection(s, self.selected_pos), StateTransition::To(AnyState::Playing(PlayingState)))
            } else if s.ui.moves.contains(cursor) {
                match multicapture_outcome(s, cursor.0, cursor.1) {
                    Ok((s2, cont, _)) => {
                        let r = after_move_step(without_hint(s2), cont, cursor);
                        (left_selection(r.0, self.selected_pos), r.1)
                    },
                    Err(_) => (s, StateTransition::Stay),
                }
            } else {
                (s, StateTransition::Stay)
            }
        } else {
            (s, StateTransition::Stay)
        }
    }

    pub fn handle_input(&self, session: &GameSession, key: Key) -> (res: (GameSession, StateTransition))
        requires
            session.wf(),
        ensures
            (res.0@, res.1) == self.step(session@, key),
            res.0.wf(),
    {
        match key {
            Key::Up | Key::Down | Key::Left | Key::Right => (move_cursor(session, key), StateTransition::Stay),
            Key::Esc => (self.leave(session.clone()), StateTransition::To(AnyState::Playing(PlayingState::new()))),
            Key::Enter => self.select_square(session),
            Key::Char(c) => {
                if c == ' ' {
                    self.select_square(session)
                } else {
                    (session.clone(), StateTransition::Stay)
                }
            },
            _ => (session.clone(), StateTransition::Stay),
        }
    }

    /// Drops the selection of the piece if it is still selected.
    fn leave(&self, session: GameSession) -> (s: GameSession)
        requires
            session.wf(),
        ensures
            s@ == left_selection(session@, self.selected_pos),
            s.wf(),
    {
        if session.ui_state.selected_piece == Some(self.selected_pos) {
            session.deselect_piece()
        } else {
            session
        }
    }

    fn select_square(&self, session: &GameSession) -> (res: (GameSession, StateTransition))
        requires
            session.wf(),
        ensures
            res.0.wf(),
            (res.0@, res.1) == {
                let s = session@;
                let cursor = s.ui.cursor;
                if cursor == self.selected_pos {
                    (left_selection(s, self.selected_pos), StateTransition::To(AnyState::Playing(PlayingState)))
                } else if s.ui.moves.contains(cursor) {
                    match multicapture_outcome(s, cursor.0, cursor.1) {
                        Ok((s2, cont, _)) => {
                            let r = after_move_step(without_hint(s2), cont, cursor);
                            (left_selection(r.0, self.selected_pos), r.1)
                        },
                        Err(_) => (s, StateTransition::Stay),
                    }
                } else {
                    (s, StateTransition::Stay)
                }
            },
    {
        let cursor = session.ui_state.cursor_pos;
        if cursor.0 == self.selected_pos.0 && cursor.1 == self.selected_pos.1 {
            return (self.leave(session.clone()), StateTransition::To(AnyState::Playing(PlayingState::new())));
        }
        if contains_square(&session.ui_state.possible_moves, cursor) {
            match session.try_multicapture_move(cursor.0, cursor.1) {
                Ok((updated, continue_capture, _positions)) => {
                    let mut updated = updated;
                    updated.hint = None;
                    let (after, transition) = finish_move(updated, continue_capture, cursor);
                    (self.leave(after), transition)
                },
                Err(_) => (session.clone(), StateTransition::Stay),
            }
        } else {
            (session.clone(), StateTransition::Stay)
        }
    }
}

/// Whether `x` is among `v`.
pub fn contains_square(v: &Vec<(usize, usize)>, x: (usize, usize)) -> (res: bool)
    ensures
        res == v@.contains(x),
{
    let mut i: usize = 0;
    while i < v.len()
        invariant
            i <= v@.len(),
            forall|j: int| 0 <= j < i ==> v@[j] != x,
        decreases v@.len() - i,
    {
        if v[i].0 == x.0 && v[i].1 == x.1 {
            assert(v@[i as int] == x);
            return true;
        }
        i = i + 1;
    }
    false
}


impl PieceSelectedState {
    /// What the screen shows of `session`.
    pub open spec fn shows(&self, v: &ViewData, session: &GameSession, simple_ai: bool) -> bool {
        &&& base_view(v, session, "Select a square to move to"@, simple_ai)
        &&& v.selected_piece == Some(self.selected_pos)
        &&& v.possible_moves@ == session.ui_state.possible_moves@
        &&& !v.show_ai_thinking
        &&& v.error_message is None
        &&& move_view(v.last_move) == last_move_of(session)
        &&& hint_text(v.hint) == session@.hint
        &&& !v.is_game_over
        &&& v.welcome_content is None
    }

    /// The selected piece, where it may go, and the hint.
    pub fn get_view_data<'a>(&self, session: &'a GameSession, simple_ai: bool) -> (v: ViewData<'a>)
        ensures
            self.shows(&v, session, simple_ai),
    {
        let mut v = plain_view(session, String::from_str("Select a square to move to"), simple_ai);
        v.selected_piece = Some(self.selected_pos);
        v.possible_moves = session.ui_state.possible_moves.as_slice();
        v.last_move = session.game.move_history.get_last_move();
        v.hint = hint_of(session);
        v
    }
}

} // verus!
