use vstd::prelude::*;

use crate::ai::formatting::{board_text, format_board, push_square_label, square_label};
use crate::ai::genai_client::{move_nameable, moves_nameable};
use crate::board::Board;
use crate::game_core::game_logic::{get_all_valid_moves_for_player, lemma_board_grid_pub, valid_moves_for_player, Move};
use crate::game_core::move_history::{history_notation, notation_ok, MoveHistory};
use crate::game_core::piece::Color;
use crate::game_core::reach::{law_offered_moves_on_board, move_within};
use crate::text::{chars_of, push_char, replace_all, replace_chars, string_of, trim, trim_chars};

verus! {

/// A move as listed in a hint request, e.g. `- C3 to D4 (move)`, with its
/// line break.
pub open spec fn hint_move_line(m: Move) -> Seq<char> {
    let (from, to, is_capture) = m;
    "- "@ + square_label(from.0, from.1) + " to "@ + square_label(to.0, to.1)
        + (if is_capture { " (capture)"@ } else { " (move)"@ }) + seq!['\n']
}

/// The first `k` moves as listed in a hint request.
pub open spec fn hint_move_lines(moves: Seq<Move>, k: int) -> Seq<char>
    decreases k,
{
    if k <= 0 {
        seq![]
    } else {
        hint_move_lines(moves, k - 1) + hint_move_line(moves[k - 1])
    }
}

/// How a side is named in a hint request.
pub open spec fn player_label(c: Color) -> Seq<char> {
    match c {
        Color::White => "White"@,
        Color::Black => "Black (Red pieces)"@,
    }
}

/// The hint request: the template with the side to move, the board, the
/// moves so far (or `No moves yet`) and the moves allowed now (or
/// `No moves available`) put in the places marked `{player_color}`,
/// `{board_state}`, `{move_history}` and `{available_moves}`.
pub open spec fn hint_prompt_text(template: Seq<char>, player: Color, board: Seq<char>, history: Seq<char>, moves: Seq<char>) -> Seq<char> {
    let t1 = replace_all(template, "{player_color}"@, player_label(player));
    let t2 = replace_all(t1, "{board_state}"@, board);
    let t3 = replace_all(t2, "{move_history}"@, if history.len() == 0 { "No moves yet"@ } else { history });
    replace_all(t3, "{available_moves}"@, if moves.len() == 0 { "No moves available"@ } else { moves })
}

fn describe_hint_moves(moves: &Vec<Move>) -> (s: String)
    requires
        moves_nameable(moves@),
    ensures
        s@ == hint_move_lines(moves@, moves@.len() as int),
{
    let mut moves_str = String::new();
    let mut i: usize = 0;
    while i < moves.len()
        invariant
            i <= moves@.len(),
            moves_nameable(moves@),
            moves_str@ == hint_move_lines(moves@, i as int),
        decreases moves@.len() - i,
    {
        let ((from_row, from_col), (to_row, to_col), is_capture) = moves[i];
        assert(move_nameable(moves@[i as int]));
        moves_str.append("- ");
        push_square_label(&mut moves_str, from_row, from_col);
        moves_str.append(" to ");
        push_square_label(&mut moves_str, to_row, to_col);
        if is_capture {
            moves_str.append(" (capture)");
        } else {
            moves_str.append(" (move)");
        }
        push_char(&mut moves_str, '\n');
        i = i + 1;
        assert(moves_str@ =~= hint_move_lines(moves@, i as int));
    }
    moves_str
}

/// The request for a hint to `current_player`, made from `template`, the
/// board, the moves so far and the moves the side may make now.
pub fn hint_prompt(template: &str, board: &Board, current_player: Color, history: &MoveHistory) -> (s: String)
    requires
        board.wf(),
        board.size <= 9,
        forall|i: int| 0 <= i < history@.len() ==> notation_ok(#[trigger] history@[i]),
    ensures
        s@ == hint_prompt_text(
            template@,
            current_player,
            board_text(board@),
            history_notation(history@, history@.len() as int),
            hint_move_lines(valid_moves_for_player(board@, current_player), valid_moves_for_player(board@, current_player).len() as int),
        ),
{
    let board_state = format_board(board);
    let move_history = history.to_notation();
    let possible_moves = get_all_valid_moves_for_player(board, current_player);
    proof {
        lemma_board_grid_pub(board);
        law_offered_moves_on_board(board@, current_player);
        assert forall|i: int| 0 <= i < possible_moves@.len() implies move_nameable(#[trigger] possible_moves@[i]) by {
            assert(move_within(possible_moves@[i], board.size as int));
        }
    }
    let moves_str = describe_hint_moves(&possible_moves);
    let t = chars_of(template);
    let player = if current_player == Color::White {
        chars_of("White")
    } else {
        chars_of("Black (Red pieces)")
    };
    let board_chars = chars_of(board_state.as_str());
    let history_chars = if move_history.unicode_len() == 0 {
        chars_of("No moves yet")
    } else {
        chars_of(move_history.as_str())
    };
    let moves_chars = if moves_str.unicode_len() == 0 {
        chars_of("No moves available")
    } else {
        chars_of(moves_str.as_str())
    };
    let p1 = chars_of("{player_color}");
    let p2 = chars_of("{board_state}");
    let p3 = chars_of("{move_history}");
    let p4 = chars_of("{available_moves}");
    proof {
        reveal_strlit("{player_color}");
        reveal_strlit("{board_state}");
        reveal_strlit("{move_history}");
        reveal_strlit("{available_moves}");
    }
    let t1 = replace_chars(&t, &p1, &player);
    let t2 = replace_chars(&t1, &p2, &board_chars);
    let t3 = replace_chars(&t2, &p3, &history_chars);
    let t4 = replace_chars(&t3, &p4, &moves_chars);
    string_of(&t4)
}

/// The message given when the reply holds no text.
pub open spec fn no_hint_message() -> Seq<char> {
    "Failed to parse hint from API response"@
}

/// The hint made of the model's reply (none when it had no text): the
/// reply's text without surrounding blanks.
pub fn hint_from_reply(reply: Option<&str>) -> (res: Result<String, String>)
    ensures
        match reply {
            Some(t) => res matches Ok(h) && h@ == trim(t@),
            None => res matches Err(m) && m@ == no_hint_message(),
        },
{
    match reply {
        Some(t) => {
            let v = chars_of(t);
            let trimmed = trim_chars(&v);
            Ok(string_of(&trimmed))
        },
        None => Err(String::from_str("Failed to parse hint from API response")),
    }
}

/// The message given when no model is named.
pub open spec fn missing_model_message() -> Seq<char> {
    "GEMINI_MODEL environment variable is required"@
}

/// What is needed to ask the hint service: the key and the model's name.
pub struct HintProvider {
    api_key: String,
    model: String,
}

impl View for HintProvider {
    type V = (Seq<char>, Seq<char>);

    closed spec fn view(&self) -> (Seq<char>, Seq<char>) {
        (self.api_key@, self.model@)
    }
}

impl HintProvider {
    /// A provider for `api_key` and the model named by the environment
    /// (`model`, read by the caller); without a model name it is refused.
    pub fn new(api_key: String, model: Option<String>) -> (res: Result<HintProvider, String>)
        ensures
            match res {
                Ok(p) => model is Some && p@ == (api_key@, model->0@),
                Err(m) => model is None && m@ == missing_model_message(),
            },
    {
        match model {
            Some(model) => Ok(HintProvider { api_key, model }),
            None => Err(String::from_str("GEMINI_MODEL environment variable is required")),
        }
    }

    pub fn api_key(&self) -> (s: &str)
        ensures
            s@ == self@.0,
    {
        self.api_key.as_str()
    }

    pub fn model(&self) -> (s: &str)
        ensures
            s@ == self@.1,
    {
        self.model.as_str()
    }
}

impl Clone for HintProvider {
    fn clone(&self) -> (res: Self)
        ensures
            res@ == self@,
    {
        HintProvider { api_key: self.api_key.clone(), model: self.model.clone() }
    }
}

} // verus!
