//! How men and kings move, when a man is crowned, and when a side is stuck.

use vstd::prelude::*;

use crate::board::{Grid, at, on_board, set_cell, grid_wf};
use crate::game_core::game::{GameView, play, is_jump, move_error};
use crate::game_core::game_logic::{
    any_jump, any_step, can_capture_from, can_move_by, can_step_from, jump_dirs, lemma_any_jump_mono,
    lemma_any_step_mono, owned_by, player_can_capture, player_can_step, stalemate, step_dirs, valid_move,
};
use crate::game_core::laws::law_read_after_write;
use crate::game_core::piece::{Color, Piece};

verus! {

/// A king steps one square diagonally in any of the four directions, onto
/// any empty square of the board.
pub proof fn law_king_steps_every_way(g: Grid, r: int, c: int, dr: int, dc: int, p: Piece)
    requires
        p.is_king,
        dr == 1 || dr == -1,
        dc == 1 || dc == -1,
        on_board(g, r + dr, c + dc),
        at(g, r + dr, c + dc) is None,
    ensures
        valid_move(g, r, c, r + dr, c + dc, p),
{
}

/// A king jumps two squares diagonally in any of the four directions over
/// an opposing piece, onto any empty square of the board.
pub proof fn law_king_jumps_every_way(g: Grid, r: int, c: int, dr: int, dc: int, p: Piece, q: Piece)
    requires
        p.is_king,
        dr == 1 || dr == -1,
        dc == 1 || dc == -1,
        at(g, r + dr, c + dc) == Some(q),
        q.color != p.color,
        on_board(g, r + 2 * dr, c + 2 * dc),
        at(g, r + 2 * dr, c + 2 * dc) is None,
    ensures
        valid_move(g, r, c, r + 2 * dr, c + 2 * dc, p),
{
    assert((2 * dr) / 2 == dr && (2 * dc) / 2 == dc);
}

/// A man only goes forward: a white man towards row 0, a black man towards
/// the last row.
pub proof fn law_men_go_forward(g: Grid, r: int, c: int, tr: int, tc: int, p: Piece)
    requires
        !p.is_king,
        valid_move(g, r, c, tr, tc, p),
    ensures
        p.color == Color::White ==> tr < r,
        p.color == Color::Black ==> tr > r,
{
}

/// A move that is played puts the piece on its target square, crowned when
/// it reaches the far row (row 0 for white, the last row for black) and as
/// it was otherwise; the move's record says whether it was crowned.
pub proof fn law_crowned_only_on_far_row(v: GameView, fr: usize, fc: usize, tr: usize, tc: usize)
    requires
        grid_wf(v.board),
        play(v, fr, fc, tr, tc) is Ok,
    ensures
        ({
            let p = at(v.board, fr as int, fc as int)->0;
            let after = (play(v, fr, fc, tr, tc)->Ok_0).0;
            let far = if p.color == Color::White { tr == 0 } else { tr == v.board.len() - 1 };
            &&& at(after.board, tr as int, tc as int) == Some(Piece { color: p.color, is_king: p.is_king || far })
            &&& at(after.board, fr as int, fc as int) is None
            &&& after.history.last().became_king == far
        }),
{
    let g = v.board;
    let p = at(g, fr as int, fc as int)->0;
    let (fr, fc, tr, tc) = (fr as int, fc as int, tr as int, tc as int);
    assert(move_error(g, v.player, fr, fc, tr, tc) is None);
    assert(valid_move(g, fr, fc, tr, tc, p));
    let mr = (fr + tr) / 2;
    let mc = (fc + tc) / 2;
    let g1 = if is_jump(fr, tr) { set_cell(g, mr, mc, None) } else { g };
    if is_jump(fr, tr) {
        assert(mr == fr + (tr - fr) / 2 && mc == fc + (tc - fc) / 2);
        law_read_after_write(g, mr, mc, None, tr, tc);
        law_read_after_write(g, mr, mc, None, fr, fc);
    }
    assert(grid_wf(g1)) by {
        if is_jump(fr, tr) {
            law_read_after_write(g, mr, mc, None, tr, tc);
        }
    }
    assert(at(g1, fr, fc) == Some(p));
    let ga = set_cell(g1, tr, tc, Some(p));
    law_read_after_write(g1, tr, tc, Some(p), fr, fc);
    let gb = set_cell(ga, fr, fc, None);
    law_read_after_write(ga, fr, fc, None, tr, tc);
    assert(at(gb, tr, tc) == Some(p));
    assert(at(gb, fr, fc) is None);
    let k = Piece { color: p.color, is_king: true };
    law_read_after_write(gb, tr, tc, Some(k), fr, fc);
    if p.is_king {
        assert(Piece { color: p.color, is_king: true } == p);
    }
}

/// A piece that can make a single step: its step is one of the steps its
/// kind tries.
proof fn lemma_step_tried(g: Grid, r: int, c: int, tr: int, tc: int, p: Piece)
    requires
        tr - r == 1 || tr - r == -1,
        valid_move(g, r, c, tr, tc, p),
    ensures
        any_step(g, r, c, p, step_dirs(p).len() as int),
{
    let d = (tr - r, tc - c);
    let n = step_dirs(p).len() as int;
    let k: int = choose|k: int| 0 <= k < n && step_dirs(p)[k] == d;
    assert(can_move_by(g, r, c, p, step_dirs(p)[k]));
    assert(any_step(g, r, c, p, k + 1));
    lemma_any_step_mono(g, r, c, p, k + 1, n);
}

/// A piece that can jump: its jump is one of the jumps its kind tries.
proof fn lemma_jump_tried(g: Grid, r: int, c: int, tr: int, tc: int, p: Piece)
    requires
        tr - r == 2 || tr - r == -2,
        valid_move(g, r, c, tr, tc, p),
    ensures
        any_jump(g, r, c, p, jump_dirs(p).len() as int),
{
    let d = (tr - r, tc - c);
    let n = jump_dirs(p).len() as int;
    let k: int = choose|k: int| 0 <= k < n && jump_dirs(p)[k] == d;
    assert(can_move_by(g, r, c, p, jump_dirs(p)[k]));
    assert(any_jump(g, r, c, p, k + 1));
    lemma_any_jump_mono(g, r, c, p, k + 1, n);
}

/// A side is never stuck while one of its pieces, king or man, can make a
/// valid move: a single step means it can step, a jump means it can
/// capture.
pub proof fn law_a_valid_move_means_no_stalemate(g: Grid, color: Color, r: int, c: int, tr: int, tc: int)
    requires
        owned_by(g, r, c, color),
        valid_move(g, r, c, tr, tc, at(g, r, c)->0),
    ensures
        tr - r == 1 || tr - r == -1 ==> player_can_step(g, color),
        tr - r == 2 || tr - r == -2 ==> player_can_capture(g, color),
        !stalemate(g, color),
{
    let p = at(g, r, c)->0;
    if tr - r == 1 || tr - r == -1 {
        lemma_step_tried(g, r, c, tr, tc, p);
        assert(can_step_from(g, r, c));
    } else {
        lemma_jump_tried(g, r, c, tr, tc, p);
        assert(can_capture_from(g, r, c));
    }
}

} // verus!
