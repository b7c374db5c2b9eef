//! The board and its squares as text for the model.

use vstd::prelude::*;

use crate::board::{Board, Grid, at};
use crate::game_core::game_logic::lemma_board_grid_pub;
use crate::game_core::piece::{Piece, piece_text};
use crate::text::{decimal, push_char, push_decimal};

verus! {

/// Whether a square can be named: a row up to 8 and a column whose letter
/// (counted from `A`, the column taken as a byte) is a byte too.
pub open spec fn square_nameable(row: usize, col: usize) -> bool {
    row <= 8 && col % 256 + 65 < 256
}

/// The name of a square: its column letter from `A`, then `8 - row`.
pub open spec fn square_label(row: usize, col: usize) -> Seq<char> {
    seq![((col % 256) + 65) as char] + decimal((8 - row) as nat)
}

pub fn push_square_label(s: &mut String, row: usize, col: usize)
    requires
        square_nameable(row, col),
    ensures
        final(s)@ == old(s)@ + square_label(row, col),
{
    let b: u8 = (col % 256) as u8 + 65;
    push_char(s, b as char);
    push_decimal(s, 8 - row);
    assert(final(s)@ =~= old(s)@ + square_label(row, col));
}

pub fn format_square(row: usize, col: usize) -> (s: String)
    requires
        square_nameable(row, col),
    ensures
        s@ == square_label(row, col),
{
    let mut s = String::new();
    push_square_label(&mut s, row, col);
    s
}

/// A square of the board as text: the piece, or `.` when empty.
pub open spec fn cell_text(p: Option<Piece>) -> Seq<char> {
    match p {
        Some(p) => piece_text(p),
        None => seq!['.'],
    }
}

/// The first `k` squares of row `r`, each followed by a space.
pub open spec fn row_cells_text(g: Grid, r: int, k: int) -> Seq<char>
    decreases k,
{
    if k <= 0 {
        seq![]
    } else {
        row_cells_text(g, r, k - 1) + cell_text(at(g, r, k - 1)) + seq![' ']
    }
}

/// The first `k` rows, each labelled with `8 - row`.
pub open spec fn board_rows_text(g: Grid, k: int) -> Seq<char>
    decreases k,
{
    if k <= 0 {
        seq![]
    } else {
        board_rows_text(g, k - 1) + decimal((8 - (k - 1)) as nat) + seq![' '] + row_cells_text(g, k - 1, g.len() as int) + seq!['\n']
    }
}

/// The board as text: a line of column letters, then one line per row.
pub open spec fn board_text(g: Grid) -> Seq<char> {
    "  A B C D E F G H\n"@ + board_rows_text(g, g.len() as int)
}

pub fn format_board(board: &Board) -> (s: String)
    requires
        board.wf(),
        board.size <= 9,
    ensures
        s@ == board_text(board@),
{
    proof {
        lemma_board_grid_pub(board);
    }
    let mut board_str = String::from_str("  A B C D E F G H\n");
    let mut r: usize = 0;
    while r < board.size
        invariant
            board.wf(),
            board.size <= 9,
            board@.len() == board.size,
            r <= board.size,
            board_str@ == "  A B C D E F G H\n"@ + board_rows_text(board@, r as int),
        decreases board.size - r,
    {
        let ghost before = board_str@;
        push_decimal(&mut board_str, 8 - r);
        push_char(&mut board_str, ' ');
        let ghost row_start = board_str@;
        let mut c: usize = 0;
        while c < board.size
            invariant
                board.wf(),
                board@.len() == board.size,
                r < board.size,
                c <= board.size,
                board_str@ == row_start + row_cells_text(board@, r as int, c as int),
            decreases board.size - c,
        {
            let ghost before_cell = board_str@;
            match board.get_piece(r, c) {
                Some(piece) => {
                    let t = piece.display();
                    board_str.append(t.as_str());
                },
                None => {
                    push_char(&mut board_str, '.');
                },
            }
            push_char(&mut board_str, ' ');
            c = c + 1;
            assert(board_str@ =~= row_start + row_cells_text(board@, r as int, c as int));
        }
        push_char(&mut board_str, '\n');
        r = r + 1;
        assert(board_str@ =~= "  A B C D E F G H\n"@ + board_rows_text(board@, r as int));
    }
    board_str
}

} // verus!
