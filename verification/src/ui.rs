//! The first, plain screen of the game kept in one place: a letter per
//! square, the cursor in square brackets and the selected piece in round ones.

use vstd::prelude::*;

use crate::board::{Board, at};
use crate::game::CheckersGame;
use crate::game_core::game_logic::{stalemate, winner};
use crate::game_core::piece::{Color, Piece};
use crate::interface::ui::{color_word, pad2, run, runs_view, Run, RunView, TermColor};
use crate::text::{decimal, push_char, push_decimal};

verus! {

/// The screen's cursor.
pub struct UI {
    pub cursor_pos: (usize, usize),
}

impl UI {
    pub fn new() -> (ui: Self)
        ensures
            ui.cursor_pos == (0usize, 0usize),
    {
        UI { cursor_pos: (0, 0) }
    }

    pub fn set_cursor(&mut self, row: usize, col: usize)
        ensures
            final(self).cursor_pos == (row, col),
    {
        self.cursor_pos = (row, col);
    }

    pub fn get_cursor(&self) -> (c: (usize, usize))
        ensures
            c == self.cursor_pos,
    {
        self.cursor_pos
    }

    /// How square `(row, col)` is drawn: its letter (`.` when empty) in
    /// square brackets and yellow under the cursor, in round brackets and
    /// green when selected, else between blanks in the piece's colour.
    pub fn cell(&self, board: &Board, selected: Option<(usize, usize)>, row: usize, col: usize) -> (res: (String, TermColor))
        requires
            board.wf(),
        ensures
            (res.0@, res.1) == cell_spec(at(board@, row as int, col as int), self.cursor_pos == (row, col), selected == Some((row, col))),
    {
        let (letter, color) = match board.get_piece(row, col) {
            Some(p) => (piece_letter(p), if p.color == Color::White { TermColor::White } else { TermColor::Red }),
            None => ('.', TermColor::DarkGrey),
        };
        let mut s = String::new();
        let is_cursor = self.cursor_pos.0 == row && self.cursor_pos.1 == col;
        let is_selected = match selected {
            Some(sq) => sq.0 == row && sq.1 == col,
            None => false,
        };
        if is_cursor {
            push_char(&mut s, '[');
            push_char(&mut s, letter);
            push_char(&mut s, ']');
            (s, TermColor::Yellow)
        } else if is_selected {
            push_char(&mut s, '(');
            push_char(&mut s, letter);
            push_char(&mut s, ')');
            (s, TermColor::Green)
        } else {
            push_char(&mut s, ' ');
            push_char(&mut s, letter);
            push_char(&mut s, ' ');
            (s, color)
        }
    }
}

/// The letter of a piece: `w` or `b`, in capitals for a king.
pub open spec fn letter_of(p: Piece) -> char {
    match (p.color, p.is_king) {
        (Color::White, false) => 'w',
        (Color::White, true) => 'W',
        (Color::Black, false) => 'b',
        (Color::Black, true) => 'B',
    }
}

pub fn piece_letter(p: Piece) -> (c: char)
    ensures
        c == letter_of(p),
{
    match (p.color, p.is_king) {
        (Color::White, false) => 'w',
        (Color::White, true) => 'W',
        (Color::Black, false) => 'b',
        (Color::Black, true) => 'B',
    }
}

/// A square as the plain screen draws it.
pub open spec fn cell_spec(p: Option<Piece>, is_cursor: bool, is_selected: bool) -> (Seq<char>, TermColor) {
    let letter = match p {
        Some(q) => letter_of(q),
        None => '.',
    };
    if is_cursor {
        (seq!['[', letter, ']'], TermColor::Yellow)
    } else if is_selected {
        (seq!['(', letter, ')'], TermColor::Green)
    } else {
        (seq![' ', letter, ' '], match p {
            Some(q) => if q.color == Color::White { TermColor::White } else { TermColor::Red },
            None => TermColor::DarkGrey,
        })
    }
}

/// A square's name on the plain screen: its column letter from `A`, then
/// its row counted from 1 at the top.
pub open spec fn position_text(pos: (usize, usize)) -> Seq<char> {
    seq![((pos.1 % 256) + 65) as char] + decimal((pos.0 + 1) as nat)
}

pub fn format_position(pos: (usize, usize)) -> (s: String)
    requires
        pos.1 % 256 + 65 < 256,
        pos.0 < usize::MAX,
    ensures
        s@ == position_text(pos),
{
    let b: u8 = (pos.1 % 256) as u8 + 65;
    let mut s = String::new();
    push_char(&mut s, b as char);
    push_decimal(&mut s, pos.0 + 1);
    assert(s@ =~= position_text(pos));
    s
}

/// The column letters over the first `k` columns, each between blanks.
pub open spec fn header_letters(k: int) -> Seq<char>
    decreases k,
{
    if k <= 0 {
        Seq::empty()
    } else {
        header_letters(k - 1) + seq![' ', (65 + (k - 1)) as char, ' ']
    }
}

impl UI {
    /// Row `row`'s number, then its first `k` squares.
    pub open spec fn row_runs(&self, game: &CheckersGame, row: int, k: int) -> Seq<RunView>
        decreases k,
    {
        if k <= 0 {
            seq![run(pad2((row + 1) as nat) + " "@, Some(TermColor::Blue), false)]
        } else {
            let col = k - 1;
            let c = cell_spec(
                at(game.board@, row, col),
                self.cursor_pos == (row as usize, col as usize),
                game.selected_piece == Some((row as usize, col as usize)),
            );
            self.row_runs(game, row, k - 1).push(run(c.0, Some(c.1), false))
        }
    }

    /// The first `k` rows of the board, each ended by a new line.
    pub open spec fn rows_runs(&self, game: &CheckersGame, k: int) -> Seq<RunView>
        decreases k,
    {
        if k <= 0 {
            Seq::empty()
        } else {
            self.rows_runs(game, k - 1) + self.row_runs(game, k - 1, game.board.size as int).push(
                run("\n\r"@, None, false),
            )
        }
    }

    /// What a frame writes after clearing the screen: the column letters in
    /// blue, the rows, whose turn it is in the side's colour, the selected
    /// square in green, and at the end of the game the winner or the
    /// stalemate in yellow.
    pub open spec fn frame_runs(&self, game: &CheckersGame) -> Seq<RunView> {
        let n = game.board.size as int;
        seq![run("   "@ + header_letters(n), Some(TermColor::Blue), false), run("\n\r"@, None, false)]
            + self.rows_runs(game, n) + seq![
            run("\n\rCurrent player: "@, None, false),
            run(
                color_word(game.current_player) + "\n"@,
                Some(if game.current_player == Color::White { TermColor::White } else { TermColor::Red }),
                false,
            ),
        ] + (match game.selected_piece {
            Some(p) => seq![run("Selected piece at: "@ + position_text(p) + "\n"@, Some(TermColor::Green), false)],
            None => Seq::empty(),
        }) + (if game.is_game_over {
            match winner(game.board@) {
                Some(w) => seq![run("\nGame Over! "@ + color_word(w) + " wins!\n"@, Some(TermColor::Yellow), false)],
                None => if stalemate(game.board@, game.current_player) {
                    seq![run("\nGame Over! Stalemate!\n"@, Some(TermColor::Yellow), false)]
                } else {
                    Seq::empty()
                },
            }
        } else {
            Seq::empty()
        })
    }
}

/// Adds a run at the end of `out`.
fn add_run(out: &mut Vec<Run>, text: String, color: Option<TermColor>)
    ensures
        runs_view(final(out)@) == runs_view(old(out)@).push(run(text@, color, false)),
{
    let r = Run { text, color, bold: false };
    out.push(r);
    assert(runs_view(out@) =~= runs_view(old(out)@).push(run(r.text@, color, false)));
}

impl UI {
    /// Adds row `row`: its number, then its squares, then a new line.
    fn add_row(&self, out: &mut Vec<Run>, game: &CheckersGame, row: usize)
        requires
            game.wf(),
            row < game.board.size,
        ensures
            runs_view(final(out)@) == runs_view(old(out)@)
                + self.row_runs(game, row as int, game.board.size as int).push(run("\n\r"@, None, false)),
    {
        let ghost start = runs_view(out@);
        let mut number = String::new();
        if row + 1 < 10 {
            push_char(&mut number, ' ');
        }
        push_decimal(&mut number, row + 1);
        number.append(" ");
        proof { reveal_strlit(" "); }
        assert(number@ =~= pad2((row + 1) as nat) + " "@);
        add_run(out, number, Some(TermColor::Blue));
        let n = game.board.size;
        let mut col: usize = 0;
        while col < n
            invariant
                col <= n,
                n == game.board.size,
                game.wf(),
                row < n,
                runs_view(out@) == start + self.row_runs(game, row as int, col as int),
            decreases n - col,
        {
            let (text, color) = self.cell(&game.board, game.selected_piece, row, col);
            add_run(out, text, Some(color));
            assert(runs_view(out@) =~= start + self.row_runs(game, row as int, col + 1));
            col = col + 1;
        }
        add_run(out, String::from_str("\n\r"), None);
        assert(runs_view(out@) =~= start + self.row_runs(game, row as int, n as int).push(run("\n\r"@, None, false)));
    }

    /// A frame of the game: what is written after the screen is cleared and
    /// the cursor put on its top left corner.
    pub fn render_game(&self, game: &CheckersGame) -> (out: Vec<Run>)
        requires
            game.wf(),
            game.board.size < 192,
            match game.selected_piece {
                Some(p) => p.1 % 256 + 65 < 256 && p.0 < usize::MAX,
                None => true,
            },
        ensures
            runs_view(out@) == self.frame_runs(game),
    {
        let n = game.board.size;
        let mut out: Vec<Run> = Vec::new();
        let mut header = String::from_str("   ");
        let mut col: usize = 0;
        while col < n
            invariant
                col <= n < 192,
                header@ == "   "@ + header_letters(col as int),
            decreases n - col,
        {
            push_char(&mut header, ' ');
            let b: u8 = 65 + (col as u8);
            push_char(&mut header, b as char);
            push_char(&mut header, ' ');
            assert(header@ =~= "   "@ + header_letters(col + 1));
            col = col + 1;
        }
        add_run(&mut out, header, Some(TermColor::Blue));
        add_run(&mut out, String::from_str("\n\r"), None);
        let ghost head = runs_view(out@);
        let mut row: usize = 0;
        while row < n
            invariant
                row <= n,
                n == game.board.size,
                game.wf(),
                runs_view(out@) == head + self.rows_runs(game, row as int),
            decreases n - row,
        {
            self.add_row(&mut out, game, row);
            assert(runs_view(out@) =~= head + self.rows_runs(game, row + 1));
            row = row + 1;
        }
        add_run(&mut out, String::from_str("\n\rCurrent player: "), None);
        let (mut word, color) = match game.current_player {
            Color::White => (String::from_str("White"), TermColor::White),
            Color::Black => (String::from_str("Black"), TermColor::Red),
        };
        word.append("\n");
        add_run(&mut out, word, Some(color));
        let ghost status_done = runs_view(out@);
        match game.selected_piece {
            Some(p) => {
                let mut t = String::from_str("Selected piece at: ");
                let place = format_position(p);
                t.append(place.as_str());
                t.append("\n");
                add_run(&mut out, t, Some(TermColor::Green));
            },
            None => {},
        }
        let ghost selected_done = runs_view(out@);
        let ghost selected_part: Seq<RunView> = match game.selected_piece {
            Some(p) => seq![run("Selected piece at: "@ + position_text(p) + "\n"@, Some(TermColor::Green), false)],
            None => Seq::empty(),
        };
        assert(selected_done =~= status_done + selected_part);
        if game.is_game_over {
            match game.check_winner() {
                Some(w) => {
                    let mut t = String::from_str("\nGame Over! ");
                    match w {
                        Color::White => t.append("White"),
                        Color::Black => t.append("Black"),
                    }
                    t.append(" wins!\n");
                    add_run(&mut out, t, Some(TermColor::Yellow));
                },
                None => {
                    if game.is_stalemate() {
                        add_run(&mut out, String::from_str("\nGame Over! Stalemate!\n"), Some(TermColor::Yellow));
                    }
                },
            }
        }
        assert(runs_view(out@) =~= self.frame_runs(game));
        out
    }
}

} // verus!
