//! Every square the move search hands out lies on the board.

use vstd::prelude::*;

use crate::board::{Grid, at, set_cell};
use crate::game_core::game_logic::{
    abs, any_jump, board_moves, can_move_by, capture_paths, capture_paths_dirs, classified,
    endpoints, grid_count, jump_dirs, jumped_col, jumped_row, landing, lemma_remove_piece_count,
    move_kind, possible_moves, row_moves, square_moves, step_dirs, step_targets,
    valid_moves_for_player, Move,
};
use crate::game_core::piece::{Color, Piece};

verus! {

/// Whether every square of `s` lies within the first `n` rows and columns.
pub open spec fn squares_within(s: Seq<(usize, usize)>, n: int) -> bool {
    forall|j: int| 0 <= j < s.len() ==> (#[trigger] s[j]).0 < n && s[j].1 < n
}

/// Whether every square of every path lies within the first `n` rows and columns.
pub open spec fn paths_within(ps: Seq<Seq<(usize, usize)>>, n: int) -> bool {
    forall|i: int| 0 <= i < ps.len() ==> squares_within(#[trigger] ps[i], n)
}

/// Whether a move starts and ends within the first `n` rows and columns, and
/// goes one diagonal square (a step) or two (a capture).
pub open spec fn move_within(m: Move, n: int) -> bool {
    let (from, to, is_capture) = m;
    &&& from.0 < n && from.1 < n && to.0 < n && to.1 < n
    &&& if is_capture {
        abs(to.0 - from.0) == 2 && abs(to.1 - from.1) == 2
    } else {
        abs(to.0 - from.0) == 1 && abs(to.1 - from.1) == 1
    }
}

/// Whether every move of `ms` is `move_within` the first `n` rows and columns.
pub open spec fn moves_within(ms: Seq<Move>, n: int) -> bool {
    forall|i: int| 0 <= i < ms.len() ==> move_within(#[trigger] ms[i], n)
}

proof fn lemma_capture_paths_within(g: Grid, r: int, c: int, p: Piece, prefix: Seq<(usize, usize)>)
    requires
        squares_within(prefix, g.len() as int),
    ensures
        paths_within(capture_paths(g, r, c, p, prefix), g.len() as int),
    decreases grid_count(g), 5int,
{
    if any_jump(g, r, c, p, jump_dirs(p).len() as int) {
        lemma_capture_paths_dirs_within(g, r, c, p, prefix, jump_dirs(p).len() as int);
    }
}

proof fn lemma_capture_paths_dirs_within(g: Grid, r: int, c: int, p: Piece, prefix: Seq<(usize, usize)>, k: int)
    requires
        squares_within(prefix, g.len() as int),
    ensures
        paths_within(capture_paths_dirs(g, r, c, p, prefix, k), g.len() as int),
    decreases grid_count(g), k,
{
    if k > 0 {
        lemma_capture_paths_dirs_within(g, r, c, p, prefix, k - 1);
        let d = jump_dirs(p)[k - 1];
        let head = capture_paths_dirs(g, r, c, p, prefix, k - 1);
        if can_move_by(g, r, c, p, d) && abs(d.0) == 2 {
            let jr = jumped_row(r, d);
            let jc = jumped_col(c, d);
            assert(at(g, jr, jc) is Some);
            lemma_remove_piece_count(g, jr, jc);
            let g2 = set_cell(g, jr, jc, None);
            assert(g2.len() == g.len());
            let pre2 = prefix.push(landing(r, c, d));
            assert(squares_within(pre2, g.len() as int)) by {
                assert forall|j: int| 0 <= j < pre2.len() implies (#[trigger] pre2[j]).0 < g.len() && pre2[j].1 < g.len() by {
                    if j < prefix.len() {
                        assert(pre2[j] == prefix[j]);
                    }
                }
            }
            lemma_capture_paths_within(g2, r + d.0, c + d.1, p, pre2);
            let rest = capture_paths(g2, r + d.0, c + d.1, p, pre2);
            let all = capture_paths_dirs(g, r, c, p, prefix, k);
            assert(all == head + rest);
            assert forall|i: int| 0 <= i < all.len() implies squares_within(#[trigger] all[i], g.len() as int) by {
                if i < head.len() {
                    assert(all[i] == head[i]);
                } else {
                    assert(all[i] == rest[i - head.len()]);
                }
            }
        } else {
            assert(capture_paths_dirs(g, r, c, p, prefix, k) =~= head);
        }
    }
}

proof fn lemma_endpoints_within(ps: Seq<Seq<(usize, usize)>>, k: int, n: int)
    requires
        paths_within(ps, n),
        k <= ps.len(),
    ensures
        squares_within(endpoints(ps, k), n),
    decreases k,
{
    if k > 0 {
        lemma_endpoints_within(ps, k - 1, n);
        let acc = endpoints(ps, k - 1);
        let path = ps[k - 1];
        assert(squares_within(path, n));
        if path.len() > 0 {
            assert(path.last() == path[path.len() - 1]);
        }
        let e = endpoints(ps, k);
        assert forall|j: int| 0 <= j < e.len() implies (#[trigger] e[j]).0 < n && e[j].1 < n by {
            if j < acc.len() {
                assert(e[j] == acc[j]);
            }
        }
    }
}

proof fn lemma_step_targets_within(g: Grid, r: int, c: int, p: Piece, k: int)
    requires
        k <= step_dirs(p).len(),
    ensures
        squares_within(step_targets(g, r, c, p, k), g.len() as int),
    decreases k,
{
    if k > 0 {
        lemma_step_targets_within(g, r, c, p, k - 1);
        let acc = step_targets(g, r, c, p, k - 1);
        let e = step_targets(g, r, c, p, k);
        assert forall|j: int| 0 <= j < e.len() implies (#[trigger] e[j]).0 < g.len() && e[j].1 < g.len() by {
            if j < acc.len() {
                assert(e[j] == acc[j]);
            }
        }
    }
}

proof fn lemma_possible_moves_within(g: Grid, r: int, c: int)
    ensures
        squares_within(possible_moves(g, r, c), g.len() as int),
{
    match at(g, r, c) {
        None => {},
        Some(p) => {
            let paths = capture_paths(g, r, c, p, seq![]);
            lemma_capture_paths_within(g, r, c, p, seq![]);
            if paths.len() > 0 {
                lemma_endpoints_within(paths, paths.len() as int, g.len() as int);
            } else {
                lemma_step_targets_within(g, r, c, p, step_dirs(p).len() as int);
            }
        },
    }
}

proof fn lemma_classified_within(r: int, c: int, dests: Seq<(usize, usize)>, k: int, want_capture: bool, n: int)
    requires
        0 <= r < n,
        0 <= c < n,
        n <= usize::MAX,
        squares_within(dests, n),
        k <= dests.len(),
    ensures
        moves_within(classified(r, c, dests, k, want_capture), n),
    decreases k,
{
    if k > 0 {
        lemma_classified_within(r, c, dests, k - 1, want_capture, n);
        let acc = classified(r, c, dests, k - 1, want_capture);
        let e = classified(r, c, dests, k, want_capture);
        assert forall|j: int| 0 <= j < e.len() implies move_within(#[trigger] e[j], n) by {
            if j < acc.len() {
                assert(e[j] == acc[j]);
            } else {
                assert(move_kind(r, c, dests[k - 1], want_capture));
                assert(dests[k - 1].0 < n && dests[k - 1].1 < n);
            }
        }
    }
}

proof fn lemma_row_moves_within(g: Grid, color: Color, r: int, k: int, want_capture: bool)
    requires
        0 <= r < g.len(),
        k <= g.len(),
        g.len() <= usize::MAX,
    ensures
        moves_within(row_moves(g, color, r, k, want_capture), g.len() as int),
    decreases k,
{
    if k > 0 {
        lemma_row_moves_within(g, color, r, k - 1, want_capture);
        let n = g.len() as int;
        let acc = row_moves(g, color, r, k - 1, want_capture);
        let sq = square_moves(g, color, r, k - 1, want_capture);
        let dests = possible_moves(g, r, k - 1);
        lemma_possible_moves_within(g, r, k - 1);
        lemma_classified_within(r, k - 1, dests, dests.len() as int, want_capture, n);
        let e = row_moves(g, color, r, k, want_capture);
        assert(e == acc + sq);
        assert forall|j: int| 0 <= j < e.len() implies move_within(#[trigger] e[j], n) by {
            if j < acc.len() {
                assert(e[j] == acc[j]);
            } else {
                assert(e[j] == sq[j - acc.len()]);
            }
        }
    }
}

proof fn lemma_board_moves_within(g: Grid, color: Color, k: int, want_capture: bool)
    requires
        k <= g.len(),
        g.len() <= usize::MAX,
    ensures
        moves_within(board_moves(g, color, k, want_capture), g.len() as int),
    decreases k,
{
    if k > 0 {
        lemma_board_moves_within(g, color, k - 1, want_capture);
        lemma_row_moves_within(g, color, k - 1, g.len() as int, want_capture);
        let acc = board_moves(g, color, k - 1, want_capture);
        let rm = row_moves(g, color, k - 1, g.len() as int, want_capture);
        let e = board_moves(g, color, k, want_capture);
        assert forall|j: int| 0 <= j < e.len() implies move_within(#[trigger] e[j], g.len() as int) by {
            if j < acc.len() {
                assert(e[j] == acc[j]);
            } else {
                assert(e[j] == rm[j - acc.len()]);
            }
        }
    }
}

/// Every move offered to a side starts and ends on the board, and is a
/// single diagonal step or, for a capture, a jump of two diagonal squares.
pub proof fn law_offered_moves_on_board(g: Grid, color: Color)
    requires
        g.len() <= usize::MAX,
    ensures
        moves_within(valid_moves_for_player(g, color), g.len() as int),
{
    lemma_board_moves_within(g, color, g.len() as int, true);
    lemma_board_moves_within(g, color, g.len() as int, false);
}

} // verus!
