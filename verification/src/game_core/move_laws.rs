//! What the lists of moves and of capturing pieces are, as sets.

use vstd::prelude::*;

use crate::board::{Grid, at, grid_wf, set_cell};
use crate::game_core::game_logic::{
    abs, can_capture_from, can_move_by, capture_path_to, capture_paths, capture_paths_dirs,
    capture_squares, capture_squares_row, capture_squares_upto, endpoints, first_path_to, grid_count,
    jump_dirs, jumped_col, jumped_row, landing, lemma_remove_piece_count, owned_by, player_can_capture,
    possible_moves, step_dirs, step_targets, any_jump, board_moves, classified, row_moves,
    valid_moves_for_player, Move, valid_move, lemma_any_jump_mono,
};
use crate::game_core::piece::{Color, Piece};

verus! {

/// Whether `path` ends on `t`.
pub open spec fn ends_on(path: Seq<(usize, usize)>, t: (usize, usize)) -> bool {
    path.len() > 0 && path.last() == t
}

/// The end squares of the first `k` paths hold no square twice, and hold
/// exactly the squares some of those paths end on.
proof fn lemma_endpoints(paths: Seq<Seq<(usize, usize)>>, k: int)
    requires
        0 <= k <= paths.len(),
    ensures
        endpoints(paths, k).no_duplicates(),
        forall|t: (usize, usize)|
            endpoints(paths, k).contains(t) <==> exists|i: int| 0 <= i < k && #[trigger] ends_on(paths[i], t),
    decreases k,
{
    if k > 0 {
        lemma_endpoints(paths, k - 1);
        let acc = endpoints(paths, k - 1);
        assert forall|t: (usize, usize)|
            endpoints(paths, k).contains(t) <==> exists|i: int| 0 <= i < k && #[trigger] ends_on(paths[i], t) by {
            if endpoints(paths, k).contains(t) {
                if acc.contains(t) {
                    let i = choose|i: int| 0 <= i < k - 1 && #[trigger] ends_on(paths[i], t);
                    assert(0 <= i < k && ends_on(paths[i], t));
                } else {
                    assert(ends_on(paths[k - 1], t));
                }
            }
            if exists|i: int| 0 <= i < k && #[trigger] ends_on(paths[i], t) {
                let i = choose|i: int| 0 <= i < k && #[trigger] ends_on(paths[i], t);
                if i < k - 1 {
                    assert(acc.contains(t));
                    assert(endpoints(paths, k).contains(t) || acc.push(paths[k - 1].last()).contains(t)) by {
                        if paths[k - 1].len() > 0 && !acc.contains(paths[k - 1].last()) {
                            let j = acc.index_of(t);
                            assert(acc.push(paths[k - 1].last())[j] == t);
                        }
                    }
                } else {
                    if !acc.contains(t) {
                        assert(acc.push(t)[acc.len() as int] == t);
                    }
                }
            }
        }
    }
}

/// The first of `paths[i..]` ending on `t` exists exactly when one of them
/// ends on `t`.
proof fn lemma_first_path(paths: Seq<Seq<(usize, usize)>>, t: (usize, usize), i: int)
    requires
        0 <= i <= paths.len(),
    ensures
        first_path_to(paths, t, i) is Some <==> exists|j: int| i <= j < paths.len() && #[trigger] ends_on(paths[j], t),
    decreases paths.len() - i,
{
    if i < paths.len() {
        lemma_first_path(paths, t, i + 1);
        if ends_on(paths[i], t) {
            assert(first_path_to(paths, t, i) == Some(paths[i]));
        } else {
            assert(first_path_to(paths, t, i) == first_path_to(paths, t, i + 1));
        }
        if exists|j: int| i <= j < paths.len() && #[trigger] ends_on(paths[j], t) {
            let j = choose|j: int| i <= j < paths.len() && #[trigger] ends_on(paths[j], t);
            if j > i {
                assert(i + 1 <= j < paths.len() && ends_on(paths[j], t));
            }
        }
    }
}

/// A capture sequence is at least as long as the squares it started from.
proof fn lemma_paths_long(g: Grid, r: int, c: int, p: Piece, prefix: Seq<(usize, usize)>)
    ensures
        forall|i: int|
            0 <= i < capture_paths(g, r, c, p, prefix).len() ==> #[trigger] capture_paths(g, r, c, p, prefix)[i].len()
                >= prefix.len(),
    decreases grid_count(g), 5int,
{
    let paths = capture_paths(g, r, c, p, prefix);
    if any_jump(g, r, c, p, jump_dirs(p).len() as int) {
        lemma_dirs_long(g, r, c, p, prefix, jump_dirs(p).len() as int);
        assert(paths == capture_paths_dirs(g, r, c, p, prefix, jump_dirs(p).len() as int));
    } else if prefix.len() > 0 {
        assert(paths == seq![prefix]);
    } else {
        assert(paths == Seq::<Seq<(usize, usize)>>::empty());
    }
}

/// A capture sequence found by a jump holds one more square than the
/// squares it started from.
proof fn lemma_dirs_long(g: Grid, r: int, c: int, p: Piece, prefix: Seq<(usize, usize)>, k: int)
    requires
        k <= jump_dirs(p).len(),
    ensures
        forall|i: int|
            0 <= i < capture_paths_dirs(g, r, c, p, prefix, k).len()
                ==> #[trigger] capture_paths_dirs(g, r, c, p, prefix, k)[i].len() >= prefix.len() + 1,
    decreases grid_count(g), k,
{
    if k > 0 {
        lemma_dirs_long(g, r, c, p, prefix, k - 1);
        let d = jump_dirs(p)[k - 1];
        let before = capture_paths_dirs(g, r, c, p, prefix, k - 1);
        if can_move_by(g, r, c, p, d) && abs(d.0) == 2 {
            lemma_remove_piece_count(g, jumped_row(r, d), jumped_col(c, d));
            let g2 = set_cell(g, jumped_row(r, d), jumped_col(c, d), None);
            let q = prefix.push(landing(r, c, d));
            lemma_paths_long(g2, r + d.0, c + d.1, p, q);
            let rest = capture_paths(g2, r + d.0, c + d.1, p, q);
            assert(capture_paths_dirs(g, r, c, p, prefix, k) == before + rest);
            assert forall|i: int| 0 <= i < (before + rest).len() implies #[trigger] (before + rest)[i].len()
                >= prefix.len() + 1 by {
                if i >= before.len() {
                    assert((before + rest)[i] == rest[i - before.len()]);
                }
            }
        } else {
            assert(capture_paths_dirs(g, r, c, p, prefix, k) =~= before);
        }
    }
}

/// Where a piece may go, as a set. An empty square offers nothing. Where
/// the piece has a capture sequence ending on some square, the squares
/// offered are exactly the end squares of its capture sequences, each once;
/// otherwise they are its single steps, in the order of `step_dirs`.
pub proof fn law_possible_moves(g: Grid, r: int, c: int)
    ensures
        at(g, r, c) is None ==> possible_moves(g, r, c) == Seq::<(usize, usize)>::empty(),
        (exists|t: (usize, usize)| #[trigger] capture_path_to(g, r, c, t.0, t.1) is Some) ==> {
            &&& possible_moves(g, r, c).no_duplicates()
            &&& forall|t: (usize, usize)|
                possible_moves(g, r, c).contains(t) <==> (#[trigger] capture_path_to(g, r, c, t.0, t.1)) is Some
        },
        !(exists|t: (usize, usize)| #[trigger] capture_path_to(g, r, c, t.0, t.1) is Some) ==> match at(g, r, c) {
            Some(p) => possible_moves(g, r, c) == step_targets(g, r, c, p, step_dirs(p).len() as int),
            None => true,
        },
{
    match at(g, r, c) {
        None => {},
        Some(p) => {
            let paths = capture_paths(g, r, c, p, seq![]);
            if any_jump(g, r, c, p, jump_dirs(p).len() as int) {
                lemma_dirs_long(g, r, c, p, seq![], jump_dirs(p).len() as int);
            }
            assert forall|i: int| 0 <= i < paths.len() implies #[trigger] paths[i].len() > 0 by {
                assert(paths[i] == capture_paths_dirs(g, r, c, p, seq![], jump_dirs(p).len() as int)[i]);
            }
            lemma_endpoints(paths, paths.len() as int);
            assert forall|t: (usize, usize)|
                (#[trigger] capture_path_to(g, r, c, t.0, t.1)) is Some <==> exists|i: int|
                    0 <= i < paths.len() && #[trigger] ends_on(paths[i], t) by {
                lemma_first_path(paths, t, 0);
            }
            if paths.len() > 0 {
                let t = paths[0].last();
                assert(ends_on(paths[0], t));
                assert(capture_path_to(g, r, c, t.0, t.1) is Some);
            } else {
                assert forall|t: (usize, usize)| !(#[trigger] capture_path_to(g, r, c, t.0, t.1) is Some) by {
                    lemma_first_path(paths, t, 0);
                }
            }
        },
    }
}

/// Whether the first `k` squares of row `r` hold a capturing piece of side
/// `color` is whether the list of those squares is not empty.
proof fn lemma_row_nonempty(g: Grid, color: Color, r: int, k: int)
    ensures
        capture_squares_row(g, color, r, k).len() > 0 <==> exists|c: int|
            0 <= c < k && owned_by(g, r, c, color) && #[trigger] can_capture_from(g, r, c),
    decreases k,
{
    if k > 0 {
        lemma_row_nonempty(g, color, r, k - 1);
        if exists|c: int| 0 <= c < k && owned_by(g, r, c, color) && #[trigger] can_capture_from(g, r, c) {
            let c = choose|c: int| 0 <= c < k && owned_by(g, r, c, color) && #[trigger] can_capture_from(g, r, c);
            if c < k - 1 {
                assert(0 <= c < k - 1 && owned_by(g, r, c, color) && can_capture_from(g, r, c));
            }
        }
    }
}

/// The same over the first `k` rows.
proof fn lemma_upto_nonempty(g: Grid, color: Color, k: int)
    ensures
        capture_squares_upto(g, color, k).len() > 0 <==> exists|r: int, c: int|
            0 <= r < k && 0 <= c < g.len() && owned_by(g, r, c, color) && #[trigger] can_capture_from(g, r, c),
    decreases k,
{
    if k > 0 {
        lemma_upto_nonempty(g, color, k - 1);
        lemma_row_nonempty(g, color, k - 1, g.len() as int);
        if exists|r: int, c: int|
            0 <= r < k && 0 <= c < g.len() && owned_by(g, r, c, color) && #[trigger] can_capture_from(g, r, c) {
            let (r, c) = choose|r: int, c: int|
                0 <= r < k && 0 <= c < g.len() && owned_by(g, r, c, color) && #[trigger] can_capture_from(g, r, c);
            if r < k - 1 {
                assert(0 <= r < k - 1 && 0 <= c < g.len() && owned_by(g, r, c, color) && can_capture_from(g, r, c));
            } else {
                assert(0 <= c < g.len() && owned_by(g, k - 1, c, color) && can_capture_from(g, k - 1, c));
            }
        }
        if capture_squares_row(g, color, k - 1, g.len() as int).len() > 0 {
            let c = choose|c: int|
                0 <= c < g.len() && owned_by(g, k - 1, c, color) && #[trigger] can_capture_from(g, k - 1, c);
            assert(0 <= k - 1 < k && 0 <= c < g.len() && owned_by(g, k - 1, c, color) && can_capture_from(g, k - 1, c));
        }
        if capture_squares_upto(g, color, k - 1).len() > 0 {
            let (r, c) = choose|r: int, c: int|
                0 <= r < k - 1 && 0 <= c < g.len() && owned_by(g, r, c, color) && #[trigger] can_capture_from(g, r, c);
            assert(0 <= r < k && 0 <= c < g.len() && owned_by(g, r, c, color) && can_capture_from(g, r, c));
        }
    }
}

/// A side can capture exactly when the list of its pieces that can capture
/// is not empty.
pub proof fn law_capture_available_iff_listed(g: Grid, color: Color)
    requires
        grid_wf(g),
    ensures
        player_can_capture(g, color) <==> capture_squares(g, color).len() > 0,
{
    lemma_upto_nonempty(g, color, g.len() as int);
    if player_can_capture(g, color) {
        let (r, c) = choose|r: int, c: int| owned_by(g, r, c, color) && #[trigger] can_capture_from(g, r, c);
        assert(0 <= r < g.len() && 0 <= c < g[r].len());
        assert(0 <= r < g.len() && 0 <= c < g.len() && owned_by(g, r, c, color) && can_capture_from(g, r, c));
    }
}

/// A square and a square it may move to.
pub type Pair = ((usize, usize), (usize, usize));

/// The squares a piece of side `color` on `(r, c)` may move to, each paired
/// with `(r, c)`, in the order they are offered.
pub open spec fn square_pairs(g: Grid, color: Color, r: int, c: int) -> Seq<Pair> {
    if owned_by(g, r, c, color) {
        possible_moves(g, r, c).map_values(|t: (usize, usize)| ((r as usize, c as usize), t))
    } else {
        Seq::empty()
    }
}

/// The same over the first `k` squares of row `r`.
pub open spec fn row_pairs(g: Grid, color: Color, r: int, k: int) -> Seq<Pair>
    decreases k,
{
    if k <= 0 {
        Seq::empty()
    } else {
        row_pairs(g, color, r, k - 1) + square_pairs(g, color, r, k - 1)
    }
}

/// The same over the first `k` rows, row by row.
pub open spec fn board_pairs(g: Grid, color: Color, k: int) -> Seq<Pair>
    decreases k,
{
    if k <= 0 {
        Seq::empty()
    } else {
        board_pairs(g, color, k - 1) + row_pairs(g, color, k - 1, g.len() as int)
    }
}

/// A pair kept as a move of the kind asked for: a jump of two rows and two
/// columns (`want_capture`), or a step of one row and one column.
pub open spec fn as_move(want_capture: bool) -> spec_fn(Pair) -> Option<Move> {
    |m: Pair| {
        let (f, t) = m;
        let dr = abs(t.0 - f.0);
        let dc = abs(t.1 - f.1);
        if want_capture && dr == 2 && dc == 2 {
            Some((f, t, true))
        } else if !want_capture && dr == 1 && dc == 1 {
            Some((f, t, false))
        } else {
            None
        }
    }
}

/// Keeping what `f` keeps of a joined list keeps it of each part.
proof fn lemma_filter_map_add<A, B>(a: Seq<A>, b: Seq<A>, f: spec_fn(A) -> Option<B>)
    ensures
        (a + b).filter_map(f) == a.filter_map(f) + b.filter_map(f),
    decreases b.len(),
{
    if b.len() == 0 {
        assert(a + b =~= a);
        assert(a.filter_map(f) + b.filter_map(f) =~= a.filter_map(f));
    } else {
        lemma_filter_map_add(a, b.drop_last(), f);
        assert((a + b).drop_last() =~= a + b.drop_last());
        assert((a + b).last() == b.last());
        match f(b.last()) {
            Some(x) => {
                assert((a + b).filter_map(f) =~= a.filter_map(f) + b.filter_map(f));
            },
            None => {},
        }
    }
}

/// The moves of one kind from `(r, c)` to the first `k` of `dests` are what
/// `as_move` keeps of those squares paired with `(r, c)`.
proof fn lemma_classified(r: int, c: int, dests: Seq<(usize, usize)>, k: int, want_capture: bool)
    requires
        0 <= r <= usize::MAX,
        0 <= c <= usize::MAX,
        0 <= k <= dests.len(),
    ensures
        classified(r, c, dests, k, want_capture) == dests.take(k).map_values(
            |t: (usize, usize)| ((r as usize, c as usize), t),
        ).filter_map(as_move(want_capture)),
    decreases k,
{
    let pair = |t: (usize, usize)| ((r as usize, c as usize), t);
    if k == 0 {
        assert(dests.take(0).map_values(pair) =~= Seq::<Pair>::empty());
    } else {
        lemma_classified(r, c, dests, k - 1, want_capture);
        let prev = dests.take(k - 1).map_values(pair);
        let cur = dests.take(k).map_values(pair);
        assert(cur.drop_last() =~= prev);
        assert(cur.last() == ((r as usize, c as usize), dests[k - 1]));
        let t = dests[k - 1];
        assert((r as usize) as int == r && (c as usize) as int == c);
        match as_move(want_capture)(cur.last()) {
            Some(x) => {
                assert(cur.filter_map(as_move(want_capture)) == prev.filter_map(as_move(want_capture)) + seq![x]);
            },
            None => {
                assert(cur.filter_map(as_move(want_capture)) == prev.filter_map(as_move(want_capture)));
            },
        }
    }
}

proof fn lemma_row_moves(g: Grid, color: Color, r: int, k: int, want_capture: bool)
    requires
        0 <= r < g.len(),
        g.len() <= usize::MAX,
        k <= g.len(),
    ensures
        row_moves(g, color, r, k, want_capture) == row_pairs(g, color, r, k).filter_map(as_move(want_capture)),
    decreases k,
{
    if k <= 0 {
        assert(Seq::<Pair>::empty().filter_map(as_move(want_capture)) =~= Seq::<Move>::empty());
    } else {
        lemma_row_moves(g, color, r, k - 1, want_capture);
        lemma_filter_map_add(row_pairs(g, color, r, k - 1), square_pairs(g, color, r, k - 1), as_move(want_capture));
        let c = k - 1;
        if owned_by(g, r, c, color) {
            let dests = possible_moves(g, r, c);
            lemma_classified(r, c, dests, dests.len() as int, want_capture);
            assert(dests.take(dests.len() as int) =~= dests);
        } else {
            assert(Seq::<Pair>::empty().filter_map(as_move(want_capture)) =~= Seq::<Move>::empty());
        }
    }
}

proof fn lemma_board_moves(g: Grid, color: Color, k: int, want_capture: bool)
    requires
        g.len() <= usize::MAX,
        k <= g.len(),
    ensures
        board_moves(g, color, k, want_capture) == board_pairs(g, color, k).filter_map(as_move(want_capture)),
    decreases k,
{
    if k <= 0 {
        assert(Seq::<Pair>::empty().filter_map(as_move(want_capture)) =~= Seq::<Move>::empty());
    } else {
        lemma_board_moves(g, color, k - 1, want_capture);
        lemma_row_moves(g, color, k - 1, g.len() as int, want_capture);
        lemma_filter_map_add(board_pairs(g, color, k - 1), row_pairs(g, color, k - 1, g.len() as int), as_move(want_capture));
    }
}

/// The moves offered to a side: list, square by square in row order, each
/// piece of the side with each square it may move to; keep the jumps of two
/// rows and two columns as captures; if there are any, they are the moves
/// (a capture is forced), else the steps of one row and one column are.
pub proof fn law_valid_moves_are_forced_captures_or_steps(g: Grid, color: Color)
    requires
        g.len() <= usize::MAX,
    ensures
        ({
            let all = board_pairs(g, color, g.len() as int);
            let captures = all.filter_map(as_move(true));
            valid_moves_for_player(g, color) == if captures.len() == 0 {
                all.filter_map(as_move(false))
            } else {
                captures
            }
        }),
{
    lemma_board_moves(g, color, g.len() as int, true);
    lemma_board_moves(g, color, g.len() as int, false);
}

/// Every capture sequence found from `(r, c)` starts with the squares it
/// started from.
proof fn lemma_paths_start_with(g: Grid, r: int, c: int, p: Piece, prefix: Seq<(usize, usize)>)
    ensures
        forall|i: int| 0 <= i < capture_paths(g, r, c, p, prefix).len()
            ==> (#[trigger] capture_paths(g, r, c, p, prefix)[i]).len() >= prefix.len()
                && capture_paths(g, r, c, p, prefix)[i].take(prefix.len() as int) == prefix,
    decreases grid_count(g), 5int,
{
    let paths = capture_paths(g, r, c, p, prefix);
    if any_jump(g, r, c, p, jump_dirs(p).len() as int) {
        lemma_dirs_start_with(g, r, c, p, prefix, jump_dirs(p).len() as int);
        assert(paths == capture_paths_dirs(g, r, c, p, prefix, jump_dirs(p).len() as int));
    } else if prefix.len() > 0 {
        assert(paths == seq![prefix]);
        assert(prefix.take(prefix.len() as int) =~= prefix);
    } else {
        assert(paths == Seq::<Seq<(usize, usize)>>::empty());
    }
}

proof fn lemma_dirs_start_with(g: Grid, r: int, c: int, p: Piece, prefix: Seq<(usize, usize)>, k: int)
    requires
        k <= jump_dirs(p).len(),
    ensures
        forall|i: int| 0 <= i < capture_paths_dirs(g, r, c, p, prefix, k).len()
            ==> (#[trigger] capture_paths_dirs(g, r, c, p, prefix, k)[i]).len() >= prefix.len()
                && capture_paths_dirs(g, r, c, p, prefix, k)[i].take(prefix.len() as int) == prefix,
    decreases grid_count(g), k,
{
    if k > 0 {
        lemma_dirs_start_with(g, r, c, p, prefix, k - 1);
        let d = jump_dirs(p)[k - 1];
        let before = capture_paths_dirs(g, r, c, p, prefix, k - 1);
        if can_move_by(g, r, c, p, d) && abs(d.0) == 2 {
            lemma_remove_piece_count(g, jumped_row(r, d), jumped_col(c, d));
            let g2 = set_cell(g, jumped_row(r, d), jumped_col(c, d), None);
            let q = prefix.push(landing(r, c, d));
            lemma_paths_start_with(g2, r + d.0, c + d.1, p, q);
            let rest = capture_paths(g2, r + d.0, c + d.1, p, q);
            assert(capture_paths_dirs(g, r, c, p, prefix, k) == before + rest);
            assert forall|i: int| 0 <= i < (before + rest).len()
                implies (#[trigger] (before + rest)[i]).len() >= prefix.len()
                    && (before + rest)[i].take(prefix.len() as int) == prefix by {
                if i >= before.len() {
                    let path = rest[i - before.len()];
                    assert((before + rest)[i] == path);
                    assert(path.take(q.len() as int) == q);
                    assert(path.take(prefix.len() as int) =~= q.take(prefix.len() as int));
                    assert(q.take(prefix.len() as int) =~= prefix);
                }
            }
        } else {
            assert(capture_paths_dirs(g, r, c, p, prefix, k) =~= before);
        }
    }
}

/// The search finds a capture sequence whenever it starts from squares
/// already jumped, or from a square with a jump.
proof fn lemma_paths_found(g: Grid, r: int, c: int, p: Piece, prefix: Seq<(usize, usize)>)
    requires
        prefix.len() > 0 || any_jump(g, r, c, p, jump_dirs(p).len() as int),
    ensures
        capture_paths(g, r, c, p, prefix).len() > 0,
    decreases grid_count(g), 5int,
{
    if any_jump(g, r, c, p, jump_dirs(p).len() as int) {
        lemma_dirs_found(g, r, c, p, prefix, jump_dirs(p).len() as int);
    }
}

proof fn lemma_dirs_found(g: Grid, r: int, c: int, p: Piece, prefix: Seq<(usize, usize)>, k: int)
    requires
        k <= jump_dirs(p).len(),
        any_jump(g, r, c, p, k),
    ensures
        capture_paths_dirs(g, r, c, p, prefix, k).len() > 0,
    decreases grid_count(g), k,
{
    let d = jump_dirs(p)[k - 1];
    let before = capture_paths_dirs(g, r, c, p, prefix, k - 1);
    if any_jump(g, r, c, p, k - 1) {
        lemma_dirs_found(g, r, c, p, prefix, k - 1);
    } else {
        assert(can_move_by(g, r, c, p, d) && abs(d.0) == 2);
        lemma_remove_piece_count(g, jumped_row(r, d), jumped_col(c, d));
        let g2 = set_cell(g, jumped_row(r, d), jumped_col(c, d), None);
        let q = prefix.push(landing(r, c, d));
        lemma_paths_found(g2, r + d.0, c + d.1, p, q);
    }
}

/// The capture sequences found with the first `k` jumps come first among
/// those found with the first `k2`.
proof fn lemma_dirs_prefix(g: Grid, r: int, c: int, p: Piece, prefix: Seq<(usize, usize)>, k: int, k2: int)
    requires
        0 <= k <= k2,
    ensures
        capture_paths_dirs(g, r, c, p, prefix, k).len() <= capture_paths_dirs(g, r, c, p, prefix, k2).len(),
        forall|i: int| 0 <= i < capture_paths_dirs(g, r, c, p, prefix, k).len()
            ==> #[trigger] capture_paths_dirs(g, r, c, p, prefix, k2)[i] == capture_paths_dirs(g, r, c, p, prefix, k)[i],
    decreases k2 - k,
{
    if k < k2 {
        lemma_dirs_prefix(g, r, c, p, prefix, k, k2 - 1);
    }
}

/// A piece with a valid jump can capture: its side has a capture, is not
/// stuck, and the search finds a capture sequence that starts with that
/// jump and ends on a square the piece is offered.
pub proof fn law_a_jump_is_found(g: Grid, r: int, c: int, tr: int, tc: int)
    requires
        at(g, r, c) is Some,
        tr - r == 2 || tr - r == -2,
        valid_move(g, r, c, tr, tc, at(g, r, c)->0),
    ensures
        can_capture_from(g, r, c),
        player_can_capture(g, (at(g, r, c)->0).color),
        ({
            let paths = capture_paths(g, r, c, at(g, r, c)->0, seq![]);
            exists|i: int| 0 <= i < paths.len() && #[trigger] paths[i][0] == (tr as usize, tc as usize)
                && paths[i].len() > 0 && possible_moves(g, r, c).contains(paths[i].last())
        }),
{
    let p = at(g, r, c)->0;
    let d = (tr - r, tc - c);
    let n = jump_dirs(p).len() as int;
    let k: int = choose|k: int| 0 <= k < n && jump_dirs(p)[k] == d;
    assert(jump_dirs(p)[k] == d);
    assert(can_move_by(g, r, c, p, d));
    assert(any_jump(g, r, c, p, k + 1));
    lemma_any_jump_mono(g, r, c, p, k + 1, n);
    assert(owned_by(g, r, c, p.color) && can_capture_from(g, r, c));
    let paths = capture_paths(g, r, c, p, seq![]);
    assert(paths == capture_paths_dirs(g, r, c, p, seq![], n));
    // The sequences found through the jump `d`.
    lemma_remove_piece_count(g, jumped_row(r, d), jumped_col(c, d));
    let g2 = set_cell(g, jumped_row(r, d), jumped_col(c, d), None);
    let q = Seq::<(usize, usize)>::empty().push(landing(r, c, d));
    let rest = capture_paths(g2, r + d.0, c + d.1, p, q);
    let before = capture_paths_dirs(g, r, c, p, seq![], k);
    assert(capture_paths_dirs(g, r, c, p, seq![], k + 1) == before + rest);
    lemma_paths_found(g2, r + d.0, c + d.1, p, q);
    lemma_paths_start_with(g2, r + d.0, c + d.1, p, q);
    let i = before.len() as int;
    assert((before + rest)[i] == rest[0]);
    assert(rest[0].take(1) == q);
    assert(rest[0][0] == rest[0].take(1)[0]);
    assert(landing(r, c, d) == (tr as usize, tc as usize));
    lemma_dirs_prefix(g, r, c, p, seq![], k + 1, n);
    assert(paths[i] == rest[0]);
    // Every sequence found holds at least one square, so its end is offered.
    lemma_dirs_long(g, r, c, p, seq![], n);
    assert forall|j: int| 0 <= j < paths.len() implies #[trigger] paths[j].len() > 0 by {
        assert(paths[j] == capture_paths_dirs(g, r, c, p, seq![], n)[j]);
    }
    lemma_endpoints(paths, paths.len() as int);
    assert(ends_on(paths[i], paths[i].last()));
    assert(possible_moves(g, r, c) == endpoints(paths, paths.len() as int));
}

} // verus!
