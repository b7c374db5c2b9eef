//! What holds of the rules over all boards and all moves.

use vstd::prelude::*;

use crate::board::{Grid, at, on_board, set_cell, grid_wf};
use crate::game_core::game::{GameView, play, is_jump, moved_grid, move_error};
use crate::game_core::game_logic::{
    abs, grid_count, lemma_set_cell_count, player_can_capture, stalemate, winner, has_pieces,
    valid_move,
};
use crate::game_core::piece::{Color, Piece, opposite_color};

verus! {

/// Writing a square and reading it back gives what was written; every other
/// square keeps its content.
pub proof fn law_read_after_write(g: Grid, r: int, c: int, v: Option<Piece>, r2: int, c2: int)
    requires
        grid_wf(g),
        on_board(g, r, c),
    ensures
        at(set_cell(g, r, c, v), r, c) == v,
        (r2 != r || c2 != c) ==> at(set_cell(g, r, c, v), r2, c2) == at(g, r2, c2),
        grid_wf(set_cell(g, r, c, v)),
{
    let g2 = set_cell(g, r, c, v);
    assert(g2[r].len() == g[r].len());
    assert forall|i: int| 0 <= i < g2.len() implies #[trigger] g2[i].len() == g2.len() by {
        if i == r {
            assert(g2[i] == g[r].update(c, v));
        } else {
            assert(g2[i] == g[i]);
        }
    }
}

/// A move keeps every piece but the one it jumps: after a jump the board
/// holds one piece fewer, after a step as many as before.
pub proof fn law_move_keeps_pieces(v: GameView, fr: usize, fc: usize, tr: usize, tc: usize)
    requires
        grid_wf(v.board),
        play(v, fr, fc, tr, tc) is Ok,
    ensures
        grid_count((play(v, fr, fc, tr, tc)->Ok_0).0.board)
            == grid_count(v.board) - (if is_jump(fr as int, tr as int) { 1int } else { 0int }),
{
    let g = v.board;
    let p = at(g, fr as int, fc as int)->0;
    let (fr, fc, tr, tc) = (fr as int, fc as int, tr as int, tc as int);
    assert(move_error(g, v.player, fr, fc, tr, tc) is None);
    assert(valid_move(g, fr, fc, tr, tc, p));
    let mr = (fr + tr) / 2;
    let mc = (fc + tc) / 2;
    let g1 = if is_jump(fr, tr) { set_cell(g, mr, mc, None) } else { g };
    if is_jump(fr, tr) {
        assert(mr == fr + (tr - fr) / 2 && mc == fc + (tc - fc) / 2);
        lemma_set_cell_count(g, mr, mc, None);
        law_read_after_write(g, mr, mc, None, tr, tc);
        law_read_after_write(g, mr, mc, None, fr, fc);
    }
    assert(grid_wf(g1)) by {
        if is_jump(fr, tr) {
            law_read_after_write(g, mr, mc, None, tr, tc);
        }
    }
    assert(at(g1, tr, tc) is None);
    assert(at(g1, fr, fc) == Some(p));
    lemma_set_cell_count(g1, tr, tc, Some(p));
    let ga = set_cell(g1, tr, tc, Some(p));
    law_read_after_write(g1, tr, tc, Some(p), fr, fc);
    lemma_set_cell_count(ga, fr, fc, None);
    let gb = set_cell(ga, fr, fc, None);
    law_read_after_write(ga, fr, fc, None, tr, tc);
    assert(at(gb, tr, tc) == Some(p));
    lemma_set_cell_count(gb, tr, tc, Some(Piece { color: p.color, is_king: true }));
}

/// When the side to move can capture, every move it is allowed is a jump.
pub proof fn law_capture_is_forced(v: GameView, fr: usize, fc: usize, tr: usize, tc: usize)
    requires
        player_can_capture(v.board, v.player),
        play(v, fr, fc, tr, tc) is Ok,
    ensures
        is_jump(fr as int, tr as int),
{
}

/// A move that ends the piece's turn hands the turn to the other side; one
/// that must go on capturing keeps it. Either way the move is recorded.
pub proof fn law_turn_passes(v: GameView, fr: usize, fc: usize, tr: usize, tc: usize)
    requires
        play(v, fr, fc, tr, tc) is Ok,
    ensures
        ({
            let (next, cont) = play(v, fr, fc, tr, tc)->Ok_0;
            &&& next.player == (if cont { v.player } else { opposite_color(v.player) })
            &&& next.history.len() == v.history.len() + 1
            &&& next.size == v.size
            &&& cont ==> is_jump(fr as int, tr as int)
        }),
{
}

/// A side stuck without moves has no capture either.
pub proof fn law_stalemate_has_no_capture(g: Grid, color: Color)
    requires
        stalemate(g, color),
    ensures
        !player_can_capture(g, color),
{
}

/// The winner is the only side left on the board.
pub proof fn law_winner_is_alone(g: Grid, color: Color)
    requires
        winner(g) == Some(color),
    ensures
        has_pieces(g, color),
        !has_pieces(g, opposite_color(color)),
{
}

} // verus!
