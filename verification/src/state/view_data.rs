use vstd::prelude::*;

use crate::ai::Hint;
use crate::board::Board;
use crate::game_core::move_history::{Move, MoveRecord};
use crate::state::game_session::GameSession;
use crate::game_core::piece::Color;

verus! {

/// What a screen shows: the board and its highlights, the status line, the
/// error and the hint, and the welcome texts on the welcome screen.
pub struct ViewData<'a> {
    pub board: &'a Board,
    pub current_player: Color,
    pub cursor_pos: (usize, usize),
    pub selected_piece: Option<(usize, usize)>,
    pub possible_moves: &'a [(usize, usize)],
    pub pieces_with_captures: Vec<(usize, usize)>,
    pub status_message: String,
    pub show_ai_thinking: bool,
    pub error_message: Option<&'a str>,
    pub is_simple_ai: bool,
    pub last_move: Option<&'a Move>,
    pub hint: Option<&'a Hint>,
    pub is_game_over: bool,
    pub welcome_content: Option<(&'a str, &'a str, &'a str)>,
}

/// The text of an optional hint.
pub open spec fn hint_text(h: Option<&Hint>) -> Option<Seq<char>> {
    match h {
        Some(h) => Some(h@),
        None => None,
    }
}

/// The text of an optional message.
pub open spec fn opt_text(t: Option<&str>) -> Option<Seq<char>> {
    match t {
        Some(t) => Some(t@),
        None => None,
    }
}

/// The texts of the optional welcome content.
pub open spec fn welcome_texts(w: Option<(&str, &str, &str)>) -> Option<(Seq<char>, Seq<char>, Seq<char>)> {
    match w {
        Some((a, b, c)) => Some((a@, b@, c@)),
        None => None,
    }
}

/// The record of an optional move.
pub open spec fn move_view(m: Option<&Move>) -> Option<MoveRecord> {
    match m {
        Some(m) => Some(m@),
        None => None,
    }
}

/// The last move of a session, if any.
pub open spec fn last_move_of(s: &GameSession) -> Option<MoveRecord> {
    if s.game.move_history@.len() > 0 {
        Some(s.game.move_history@.last())
    } else {
        None
    }
}

/// The view every screen starts from: the board, the turn and the cursor
/// of the session, with nothing highlighted and no message but `status`.
pub open spec fn base_view(v: &ViewData, s: &GameSession, status: Seq<char>, simple_ai: bool) -> bool {
    &&& *v.board == s.game.board
    &&& v.current_player == s.game.current_player
    &&& v.cursor_pos == s.ui_state.cursor_pos
    &&& v.pieces_with_captures@ == Seq::<(usize, usize)>::empty()
    &&& v.status_message@ == status
    &&& v.is_simple_ai == simple_ai
}

/// A view of `session` with status line `status`: no selection, no moves,
/// no hint, no error, not thinking, not over, no welcome texts.
pub fn plain_view<'a>(session: &'a GameSession, status: String, simple_ai: bool) -> (v: ViewData<'a>)
    ensures
        base_view(&v, session, status@, simple_ai),
        v.selected_piece is None,
        v.possible_moves@ == Seq::<(usize, usize)>::empty(),
        !v.show_ai_thinking,
        v.error_message is None,
        v.last_move is None,
        v.hint is None,
        !v.is_game_over,
        v.welcome_content is None,
{
    ViewData {
        board: &session.game.board,
        current_player: session.game.current_player,
        cursor_pos: session.ui_state.cursor_pos,
        selected_piece: None,
        possible_moves: &[],
        pieces_with_captures: Vec::new(),
        status_message: status,
        show_ai_thinking: false,
        error_message: None,
        is_simple_ai: simple_ai,
        last_move: None,
        hint: None,
        is_game_over: false,
        welcome_content: None,
    }
}

/// The hint of a session, to show.
pub fn hint_of(session: &GameSession) -> (h: Option<&Hint>)
    ensures
        hint_text(h) == session@.hint,
{
    match &session.hint {
        Some(h) => Some(h),
        None => None,
    }
}

} // verus!
