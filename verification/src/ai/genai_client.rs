//! What goes into a request to the model and what is made of its reply.

use vstd::prelude::*;

use crate::ai::error::AIError;
use crate::ai::formatting::{board_text, format_board, push_square_label, square_label, square_nameable};
use crate::board::Grid;
use crate::game_core::game_logic::lemma_board_grid_pub;
use crate::game_core::reach::{law_offered_moves_on_board, move_within};
use crate::game_core::game::CheckersGame;
use crate::game_core::game_logic::{get_all_valid_moves_for_player, valid_moves_for_player, Move};
use crate::game_core::piece::Color;
use crate::text::{
    chars_of, decimal, digits_value, is_digit, keep_digit_chars, keep_digits, parse_digit_chars,
    parse_digits, push_chars, push_char, push_decimal, replace_all, replace_chars, string_of, trim,
    trim_chars,
};

verus! {

/// The moves offered to the model: the computer plays black only, and must
/// have a move.
pub fn ai_candidate_moves(game: &CheckersGame) -> (res: Result<Vec<Move>, AIError>)
    requires
        game.wf(),
    ensures
        match res {
            Ok(moves) => game.current_player == Color::Black && moves@ == valid_moves_for_player(game.board@, Color::Black)
                && moves@.len() > 0,
            Err(AIError::InvalidResponseFormat(m)) => game.current_player != Color::Black && m@ == "AI can only play as Black."@,
            Err(AIError::NoPossibleMoves) => game.current_player == Color::Black
                && valid_moves_for_player(game.board@, Color::Black).len() == 0,
            Err(_) => false,
        },
{
    if game.current_player != Color::Black {
        return Err(AIError::InvalidResponseFormat(String::from_str("AI can only play as Black.")));
    }
    let possible_moves = get_all_valid_moves_for_player(&game.board, game.current_player);
    if possible_moves.len() == 0 {
        return Err(AIError::NoPossibleMoves);
    }
    Ok(possible_moves)
}

/// Whether every square of a move can be named, the jumped one of a capture
/// included.
pub open spec fn move_nameable(m: Move) -> bool {
    let (from, to, is_capture) = m;
    &&& square_nameable(from.0, from.1)
    &&& square_nameable(to.0, to.1)
    &&& is_capture ==> from.0 + to.0 <= usize::MAX && from.1 + to.1 <= usize::MAX
        && square_nameable(((from.0 + to.0) / 2) as usize, ((from.1 + to.1) / 2) as usize)
}

/// Whether every square of the moves can be named.
pub open spec fn moves_nameable(moves: Seq<Move>) -> bool {
    forall|i: int| 0 <= i < moves.len() ==> move_nameable(#[trigger] moves[i])
}

/// Move number `i` (from 0) as listed for the model, e.g.
/// `1. C3 to E5 (captures piece at D4)`, with its line break.
pub open spec fn ai_move_line(i: int, m: Move) -> Seq<char> {
    let (from, to, is_capture) = m;
    decimal((i + 1) as nat) + ". "@ + square_label(from.0, from.1) + " to "@ + square_label(to.0, to.1) + (if is_capture {
        " (captures piece at "@ + square_label(((from.0 + to.0) / 2) as usize, ((from.1 + to.1) / 2) as usize) + ")"@
    } else {
        seq![]
    }) + seq!['\n']
}

/// The first `k` moves as listed for the model.
pub open spec fn ai_move_lines(moves: Seq<Move>, k: int) -> Seq<char>
    decreases k,
{
    if k <= 0 {
        seq![]
    } else {
        ai_move_lines(moves, k - 1) + ai_move_line(k - 1, moves[k - 1])
    }
}

/// The moves as listed for the model, one per line.
pub fn describe_ai_moves(moves: &Vec<Move>) -> (s: String)
    requires
        moves_nameable(moves@),
    ensures
        s@ == ai_move_lines(moves@, moves@.len() as int),
{
    let mut moves_str = String::new();
    let mut i: usize = 0;
    while i < moves.len()
        invariant
            i <= moves@.len(),
            moves_nameable(moves@),
            moves_str@ == ai_move_lines(moves@, i as int),
        decreases moves@.len() - i,
    {
        let ((from_row, from_col), (to_row, to_col), is_capture) = moves[i];
        assert(move_nameable(moves@[i as int]));
        push_decimal(&mut moves_str, i + 1);
        moves_str.append(". ");
        push_square_label(&mut moves_str, from_row, from_col);
        moves_str.append(" to ");
        push_square_label(&mut moves_str, to_row, to_col);
        if is_capture {
            let mid_row = (from_row + to_row) / 2;
            let mid_col = (from_col + to_col) / 2;
            moves_str.append(" (captures piece at ");
            push_square_label(&mut moves_str, mid_row, mid_col);
            moves_str.append(")");
        }
        push_char(&mut moves_str, '\n');
        i = i + 1;
        assert(moves_str@ =~= ai_move_lines(moves@, i as int));
    }
    moves_str
}

/// The request for a move: the template with the board and the trimmed
/// list of moves put in the places marked `{board_state}` and
/// `{available_moves}`.
pub open spec fn ai_prompt(template: Seq<char>, board: Seq<char>, moves: Seq<char>) -> Seq<char> {
    replace_all(replace_all(template, "{board_state}"@, board), "{available_moves}"@, trim(moves))
}

pub fn ai_move_prompt(template: &str, board_representation: &str, moves_str: &str) -> (s: String)
    ensures
        s@ == ai_prompt(template@, board_representation@, moves_str@),
{
    let t = chars_of(template);
    let board_chars = chars_of(board_representation);
    let moves_chars = chars_of(moves_str);
    let moves_trimmed = trim_chars(&moves_chars);
    let pat1 = chars_of("{board_state}");
    let pat2 = chars_of("{available_moves}");
    proof {
        reveal_strlit("{board_state}");
        reveal_strlit("{available_moves}");
    }
    let step1 = replace_chars(&t, &pat1, &board_chars);
    let step2 = replace_chars(&step1, &pat2, &moves_trimmed);
    string_of(&step2)
}

/// Why the computer cannot be asked for a move in a game where `player` is
/// to move on grid `g`.
pub open spec fn candidate_error(player: Color, g: Grid, e: AIError) -> bool {
    match e {
        AIError::InvalidResponseFormat(m) => player != Color::Black && m@ == "AI can only play as Black."@,
        AIError::NoPossibleMoves => player == Color::Black && valid_moves_for_player(g, Color::Black).len() == 0,
        _ => false,
    }
}

/// The request for the computer's move in `game`: the moves it may choose
/// from, and the text for the model made from `template`, the board and the
/// numbered list of those moves. The board is written out only when the
/// computer has a move, and only then must its squares be nameable.
pub fn ai_move_request(game: &CheckersGame, template: &str) -> (res: Result<(Vec<Move>, String), AIError>)
    requires
        game.wf(),
        game.current_player == Color::Black && valid_moves_for_player(game.board@, Color::Black).len() > 0
            ==> game.board.size <= 9,
    ensures
        match res {
            Ok((moves, prompt)) => game.current_player == Color::Black
                && moves@ == valid_moves_for_player(game.board@, Color::Black)
                && moves@.len() > 0
                && prompt@ == ai_prompt(template@, board_text(game.board@), ai_move_lines(moves@, moves@.len() as int)),
            Err(e) => candidate_error(game.current_player, game.board@, e),
        },
{
    let possible_moves = match ai_candidate_moves(game) {
        Ok(m) => m,
        Err(e) => return Err(e),
    };
    proof {
        lemma_board_grid_pub(&game.board);
        law_offered_moves_on_board(game.board@, Color::Black);
        assert forall|i: int| 0 <= i < possible_moves@.len() implies move_nameable(#[trigger] possible_moves@[i]) by {
            assert(move_within(possible_moves@[i], game.board.size as int));
        }
    }
    let board_representation = format_board(&game.board);
    let moves_str = describe_ai_moves(&possible_moves);
    let prompt = ai_move_prompt(template, board_representation.as_str(), moves_str.as_str());
    Ok((possible_moves, prompt))
}

/// The move number of the model's reply: the digits of the trimmed reply,
/// read in decimal.
pub open spec fn reply_number(reply: Seq<char>) -> Option<usize> {
    parse_digits(keep_digits(trim(reply)))
}

/// The message for a number out of range.
pub open spec fn out_of_range_message(reply: Seq<char>, n: nat) -> Seq<char> {
    "Move index "@ + keep_digits(trim(reply)) + " is out of bounds. Valid range: 1-"@ + decimal(n)
        + ". Original response: '"@ + trim(reply) + "'"@
}

/// The message for a reply without a number.
pub open spec fn not_a_number_message(reply: Seq<char>) -> Seq<char> {
    "AI returned non-numeric or invalid response: '"@ + trim(reply) + "'. Cleaned: '"@ + keep_digits(trim(reply)) + "'"@
}

/// What the model's reply picks among `moves` (numbered from 1): the move, or
/// why the reply is refused.
pub open spec fn reply_choice(moves: Seq<Move>, reply: Option<Seq<char>>) -> Result<((usize, usize), (usize, usize)), Seq<char>> {
    match reply {
        None => Err("No text content in response"@),
        Some(text) => match reply_number(text) {
            Some(k) => if 1 <= k <= moves.len() {
                Ok((moves[k - 1].0, moves[k - 1].1))
            } else {
                Err(out_of_range_message(text, moves.len()))
            },
            None => Err(not_a_number_message(text)),
        },
    }
}

/// Whatever the model replies, a move it is granted is one of the moves it
/// was offered, from its start square to its end square.
pub proof fn law_choice_is_offered(moves: Seq<Move>, reply: Option<Seq<char>>)
    requires
        reply_choice(moves, reply) is Ok,
    ensures
        exists|i: int| 0 <= i < moves.len() && (#[trigger] moves[i]).0 == (reply_choice(moves, reply)->Ok_0).0
            && moves[i].1 == (reply_choice(moves, reply)->Ok_0).1,
{
    let text = reply->0;
    let k = reply_number(text)->0;
    assert(moves[k - 1].0 == (reply_choice(moves, reply)->Ok_0).0);
}

/// Reads the model's reply (none when it had no text) as a move among `moves`.
pub fn parse_ai_move(moves: &Vec<Move>, reply: Option<&str>) -> (res: Result<((usize, usize), (usize, usize)), AIError>)
    ensures
        match res {
            Ok(m) => reply_choice(moves@, match reply { Some(t) => Some(t@), None => None }) == Ok::<((usize, usize), (usize, usize)), Seq<char>>(m),
            Err(AIError::ParseError(e)) => reply is None && reply_choice(moves@, None) == Err::<((usize, usize), (usize, usize)), Seq<char>>(e@),
            Err(AIError::InvalidResponseFormat(e)) => reply is Some
                && reply_choice(moves@, Some(reply->0@)) == Err::<((usize, usize), (usize, usize)), Seq<char>>(e@),
            Err(_) => false,
        },
{
    let text_response = match reply {
        Some(t) => t,
        None => return Err(AIError::ParseError(String::from_str("No text content in response"))),
    };
    let raw = chars_of(text_response);
    let text = trim_chars(&raw);
    let cleaned = keep_digit_chars(&text);
    proof {
        lemma_keep_digits_all_digits(text@);
    }
    match parse_digit_chars(&cleaned) {
        Some(move_number) => {
            if move_number > 0 && move_number <= moves.len() {
                let chosen = moves[move_number - 1];
                Ok((chosen.0, chosen.1))
            } else {
                let mut msg = String::from_str("Move index ");
                push_chars(&mut msg, &cleaned);
                msg.append(" is out of bounds. Valid range: 1-");
                push_decimal(&mut msg, moves.len());
                msg.append(". Original response: '");
                push_chars(&mut msg, &text);
                msg.append("'");
                Err(AIError::InvalidResponseFormat(msg))
            }
        },
        None => {
            let mut msg = String::from_str("AI returned non-numeric or invalid response: '");
            push_chars(&mut msg, &text);
            msg.append("'. Cleaned: '");
            push_chars(&mut msg, &cleaned);
            msg.append("'");
            Err(AIError::InvalidResponseFormat(msg))
        },
    }
}

proof fn lemma_keep_digits_all_digits(s: Seq<char>)
    ensures
        forall|i: int| 0 <= i < keep_digits(s).len() ==> is_digit(#[trigger] keep_digits(s)[i]),
    decreases s.len(),
{
    if s.len() > 0 {
        lemma_keep_digits_all_digits(s.drop_last());
        let prev = keep_digits(s.drop_last());
        assert(keep_digits(s) == prev + if is_digit(s.last()) { seq![s.last()] } else { seq![] });
        assert forall|i: int| 0 <= i < keep_digits(s).len() implies is_digit(#[trigger] keep_digits(s)[i]) by {
            if i < prev.len() {
                assert(keep_digits(s)[i] == prev[i]);
            }
        }
    }
}

/// The model's story with its HTML line breaks made into line breaks.
pub open spec fn cleaned_story(text: Seq<char>) -> Seq<char> {
    replace_all(replace_all(replace_all(text, "<br>"@, "\n"@), "<br/>"@, "\n"@), "<br />"@, "\n"@)
}

pub fn clean_story_text(text: &str) -> (s: String)
    ensures
        s@ == cleaned_story(text@),
{
    let t = chars_of(text);
    let nl = chars_of("\n");
    let p1 = chars_of("<br>");
    let p2 = chars_of("<br/>");
    let p3 = chars_of("<br />");
    proof {
        reveal_strlit("<br>");
        reveal_strlit("<br/>");
        reveal_strlit("<br />");
    }
    let a = replace_chars(&t, &p1, &nl);
    let b = replace_chars(&a, &p2, &nl);
    let c = replace_chars(&b, &p3, &nl);
    string_of(&c)
}

} // verus!
