use vstd::prelude::*;

use crate::board::{Board, Grid, at, on_board, set_cell, grid_wf, MAX_BOARD_SIZE};
use crate::game_core::piece::{Color, Piece, opposite_color};

verus! {

/// A move of a player: origin square, destination square, and whether it is
/// a capture.
pub type Move = ((usize, usize), (usize, usize), bool);

pub open spec fn abs(x: int) -> int {
    if x < 0 { -x } else { x }
}

/// Whether a piece may travel `dr` rows: kings go either way, white men
/// towards row 0, black men towards the last row.
pub open spec fn advances(p: Piece, dr: int) -> bool {
    ||| p.is_king
    ||| p.color == Color::White && dr < 0
    ||| p.color == Color::Black && dr > 0
}

/// Whether square `(r, c)` holds a piece of the side opposed to `p`.
pub open spec fn holds_opponent_of(g: Grid, r: int, c: int, p: Piece) -> bool {
    match at(g, r, c) {
        Some(q) => q.color != p.color,
        None => false,
    }
}

/// The rule for one move of `p` from `(fr, fc)` to `(tr, tc)`: the target is
/// an empty square on the board, on a diagonal, in a direction the piece may
/// go, either one step away or two steps away over an opposing piece.
pub open spec fn valid_move(g: Grid, fr: int, fc: int, tr: int, tc: int, p: Piece) -> bool {
    let dr = tr - fr;
    let dc = tc - fc;
    &&& on_board(g, tr, tc)
    &&& at(g, tr, tc) is None
    &&& abs(dr) == abs(dc)
    &&& advances(p, dr)
    &&& (abs(dr) == 1 || (abs(dr) == 2 && holds_opponent_of(g, fr + dr / 2, fc + dc / 2, p)))
}

/// A man is crowned on the far row: row 0 for white, the last row for black.
pub open spec fn should_promote_spec(p: Piece, row: int, n: int) -> bool {
    match p.color {
        Color::White => row == 0,
        Color::Black => row == n - 1,
    }
}

/// The jumps a piece may try, in the order they are searched.
pub open spec fn jump_dirs(p: Piece) -> Seq<(int, int)> {
    if p.is_king {
        seq![(-2int, -2int), (-2int, 2int), (2int, -2int), (2int, 2int)]
    } else if p.color == Color::White {
        seq![(-2int, -2int), (-2int, 2int)]
    } else {
        seq![(2int, -2int), (2int, 2int)]
    }
}

/// The single steps a piece may try, in the order they are listed.
pub open spec fn step_dirs(p: Piece) -> Seq<(int, int)> {
    if p.is_king {
        seq![(-1int, -1int), (-1int, 1int), (1int, -1int), (1int, 1int)]
    } else if p.color == Color::White {
        seq![(-1int, -1int), (-1int, 1int)]
    } else {
        seq![(1int, -1int), (1int, 1int)]
    }
}

/// Whether `p` standing on `(r, c)` may move by the offset `d`.
pub open spec fn can_move_by(g: Grid, r: int, c: int, p: Piece, d: (int, int)) -> bool {
    valid_move(g, r, c, r + d.0, c + d.1, p)
}

/// Whether one of the first `k` jumps of `p` from `(r, c)` is allowed.
pub open spec fn any_jump(g: Grid, r: int, c: int, p: Piece, k: int) -> bool
    decreases k,
{
    if k <= 0 {
        false
    } else {
        any_jump(g, r, c, p, k - 1) || can_move_by(g, r, c, p, jump_dirs(p)[k - 1])
    }
}

/// Whether one of the first `k` steps of `p` from `(r, c)` is allowed.
pub open spec fn any_step(g: Grid, r: int, c: int, p: Piece, k: int) -> bool
    decreases k,
{
    if k <= 0 {
        false
    } else {
        any_step(g, r, c, p, k - 1) || can_move_by(g, r, c, p, step_dirs(p)[k - 1])
    }
}

pub(crate) proof fn lemma_any_jump_mono(g: Grid, r: int, c: int, p: Piece, k: int, k2: int)
    requires
        k <= k2,
        any_jump(g, r, c, p, k),
    ensures
        any_jump(g, r, c, p, k2),
    decreases k2 - k,
{
    if k < k2 {
        lemma_any_jump_mono(g, r, c, p, k, k2 - 1);
    }
}

pub(crate) proof fn lemma_any_step_mono(g: Grid, r: int, c: int, p: Piece, k: int, k2: int)
    requires
        k <= k2,
        any_step(g, r, c, p, k),
    ensures
        any_step(g, r, c, p, k2),
    decreases k2 - k,
{
    if k < k2 {
        lemma_any_step_mono(g, r, c, p, k, k2 - 1);
    }
}

/// Whether the piece on `(r, c)` can capture an opposing piece.
pub open spec fn can_capture_from(g: Grid, r: int, c: int) -> bool {
    match at(g, r, c) {
        Some(p) => any_jump(g, r, c, p, jump_dirs(p).len() as int),
        None => false,
    }
}

/// Whether the piece on `(r, c)` can make a single step.
pub open spec fn can_step_from(g: Grid, r: int, c: int) -> bool {
    match at(g, r, c) {
        Some(p) => any_step(g, r, c, p, step_dirs(p).len() as int),
        None => false,
    }
}

/// Whether `(r, c)` holds a piece of side `color`.
pub open spec fn owned_by(g: Grid, r: int, c: int, color: Color) -> bool {
    match at(g, r, c) {
        Some(p) => p.color == color,
        None => false,
    }
}

/// Whether some piece of side `color` can capture.
pub open spec fn player_can_capture(g: Grid, color: Color) -> bool {
    exists|r: int, c: int| owned_by(g, r, c, color) && #[trigger] can_capture_from(g, r, c)
}

/// Whether some piece of side `color` can make a single step.
pub open spec fn player_can_step(g: Grid, color: Color) -> bool {
    exists|r: int, c: int| owned_by(g, r, c, color) && #[trigger] can_step_from(g, r, c)
}

/// The side to move is stuck: it can neither capture nor step.
pub open spec fn stalemate(g: Grid, color: Color) -> bool {
    !player_can_capture(g, color) && !player_can_step(g, color)
}

/// Whether any piece of side `color` is on the board.
pub open spec fn has_pieces(g: Grid, color: Color) -> bool {
    exists|r: int, c: int| #[trigger] owned_by(g, r, c, color)
}

/// The winner: the only side that still has pieces, if exactly one has.
pub open spec fn winner(g: Grid) -> Option<Color> {
    let w = has_pieces(g, Color::White);
    let b = has_pieces(g, Color::Black);
    if w && !b {
        Some(Color::White)
    } else if !w && b {
        Some(Color::Black)
    } else {
        None
    }
}

/// The number of pieces in a row.
pub open spec fn row_count(s: Seq<Option<Piece>>) -> nat
    decreases s.len(),
{
    if s.len() == 0 {
        0
    } else {
        row_count(s.drop_last()) + if s.last() is Some { 1nat } else { 0nat }
    }
}

/// The number of pieces on the board.
pub open spec fn grid_count(g: Grid) -> nat
    decreases g.len(),
{
    if g.len() == 0 {
        0
    } else {
        grid_count(g.drop_last()) + row_count(g.last())
    }
}

pub proof fn lemma_row_remove(s: Seq<Option<Piece>>, i: int)
    requires
        0 <= i < s.len(),
        s[i] is Some,
    ensures
        row_count(s.update(i, None)) + 1 == row_count(s),
    decreases s.len(),
{
    if i == s.len() - 1 {
        assert(s.update(i, None).drop_last() =~= s.drop_last());
    } else {
        lemma_row_remove(s.drop_last(), i);
        assert(s.update(i, None).drop_last() =~= s.drop_last().update(i, None));
    }
}

pub proof fn lemma_row_set(s: Seq<Option<Piece>>, i: int, v: Option<Piece>)
    requires
        0 <= i < s.len(),
    ensures
        row_count(s.update(i, v)) + (if s[i] is Some { 1int } else { 0int })
            == row_count(s) + (if v is Some { 1int } else { 0int }),
    decreases s.len(),
{
    if i == s.len() - 1 {
        assert(s.update(i, v).drop_last() =~= s.drop_last());
    } else {
        lemma_row_set(s.drop_last(), i, v);
        assert(s.update(i, v).drop_last() =~= s.drop_last().update(i, v));
    }
}

/// Writing `v` on square `(r, c)` changes the number of pieces by what `v`
/// adds less what the square held.
pub proof fn lemma_set_cell_count(g: Grid, r: int, c: int, v: Option<Piece>)
    requires
        0 <= r < g.len(),
        0 <= c < g[r].len(),
    ensures
        grid_count(set_cell(g, r, c, v)) + (if g[r][c] is Some { 1int } else { 0int })
            == grid_count(g) + (if v is Some { 1int } else { 0int }),
    decreases g.len(),
{
    let g2 = set_cell(g, r, c, v);
    if r == g.len() - 1 {
        assert(g2.drop_last() =~= g.drop_last());
        lemma_row_set(g[r], c, v);
    } else {
        lemma_set_cell_count(g.drop_last(), r, c, v);
        assert(g2.drop_last() =~= set_cell(g.drop_last(), r, c, v));
    }
}

/// Taking a piece off the board lowers the number of pieces by one.
pub proof fn lemma_remove_piece_count(g: Grid, r: int, c: int)
    requires
        at(g, r, c) is Some,
    ensures
        grid_count(set_cell(g, r, c, None)) + 1 == grid_count(g),
    decreases g.len(),
{
    let g2 = set_cell(g, r, c, None);
    if r == g.len() - 1 {
        assert(g2.drop_last() =~= g.drop_last());
        lemma_row_remove(g[r], c);
    } else {
        lemma_remove_piece_count(g.drop_last(), r, c);
        assert(g2.drop_last() =~= set_cell(g.drop_last(), r, c, None));
    }
}

/// The square jumped over by the jump `d` from `(r, c)`.
pub open spec fn jumped_row(r: int, d: (int, int)) -> int {
    r + d.0 / 2
}

pub open spec fn jumped_col(c: int, d: (int, int)) -> int {
    c + d.1 / 2
}

/// The landing square of the move `d` from `(r, c)`.
pub open spec fn landing(r: int, c: int, d: (int, int)) -> (usize, usize) {
    ((r + d.0) as usize, (c + d.1) as usize)
}

/// All the capture sequences of `p` from `(r, c)`, each one extending
/// `prefix` with its landing squares, found depth first in the order of
/// `jump_dirs`. A sequence ends where no further jump is allowed. The jumping
/// piece is not lifted from its starting square while the search goes on;
/// each jumped piece is taken off before the search continues.
pub open spec fn capture_paths(g: Grid, r: int, c: int, p: Piece, prefix: Seq<(usize, usize)>) -> Seq<Seq<(usize, usize)>>
    decreases grid_count(g), 5int,
{
    if any_jump(g, r, c, p, jump_dirs(p).len() as int) {
        capture_paths_dirs(g, r, c, p, prefix, jump_dirs(p).len() as int)
    } else if prefix.len() > 0 {
        seq![prefix]
    } else {
        seq![]
    }
}

/// The capture sequences that start with one of the first `k` jumps.
pub open spec fn capture_paths_dirs(g: Grid, r: int, c: int, p: Piece, prefix: Seq<(usize, usize)>, k: int) -> Seq<Seq<(usize, usize)>>
    decreases grid_count(g), k,
{
    if k <= 0 {
        seq![]
    } else {
        let d = jump_dirs(p)[k - 1];
        let rest = if can_move_by(g, r, c, p, d) && abs(d.0) == 2 {
            proof {
                lemma_remove_piece_count(g, jumped_row(r, d), jumped_col(c, d));
            }
            capture_paths(
                set_cell(g, jumped_row(r, d), jumped_col(c, d), None),
                r + d.0,
                c + d.1,
                p,
                prefix.push(landing(r, c, d)),
            )
        } else {
            seq![]
        };
        capture_paths_dirs(g, r, c, p, prefix, k - 1) + rest
    }
}

/// The squares, row by row, of the pieces of side `color` that can capture:
/// the first `k` columns of row `r`.
pub open spec fn capture_squares_row(g: Grid, color: Color, r: int, k: int) -> Seq<(usize, usize)>
    decreases k,
{
    if k <= 0 {
        seq![]
    } else {
        capture_squares_row(g, color, r, k - 1) + if owned_by(g, r, k - 1, color) && can_capture_from(g, r, k - 1) {
            seq![(r as usize, (k - 1) as usize)]
        } else {
            seq![]
        }
    }
}

/// The same for the first `k` rows.
pub open spec fn capture_squares_upto(g: Grid, color: Color, k: int) -> Seq<(usize, usize)>
    decreases k,
{
    if k <= 0 {
        seq![]
    } else {
        capture_squares_upto(g, color, k - 1) + capture_squares_row(g, color, k - 1, g.len() as int)
    }
}

/// The squares of all pieces of side `color` that can capture, row by row.
pub open spec fn capture_squares(g: Grid, color: Color) -> Seq<(usize, usize)> {
    capture_squares_upto(g, color, g.len() as int)
}

/// A well-formed board's grid has `size` rows of `size` squares.
pub proof fn lemma_board_grid_pub(board: &Board)
    requires
        board.wf(),
    ensures
        board@.len() == board.size,
        grid_wf(board@),
        forall|r: int, c: int| #[trigger] at(board@, r, c) is Some ==> 0 <= r < board.size && 0 <= c < board.size,
{
    lemma_board_grid(board);
}

proof fn lemma_board_grid(board: &Board)
    requires
        board.wf(),
    ensures
        board@.len() == board.size,
        grid_wf(board@),
        forall|r: int, c: int| #[trigger] at(board@, r, c) is Some ==> 0 <= r < board.size && 0 <= c < board.size,
        forall|r: int, c: int| 0 <= r < board.size && 0 <= c < board.size ==> #[trigger] at(board@, r, c) == board.cells@[r]@[c],
{
    assert forall|r: int| 0 <= r < board@.len() implies #[trigger] board@[r].len() == board@.len() by {
        assert(board@[r] == board.cells@[r]@);
    }
}

pub fn should_promote(piece: &Piece, row: usize, board_size: usize) -> (res: bool)
    requires
        piece.color == Color::Black ==> board_size >= 1,
    ensures
        res == should_promote_spec(*piece, row as int, board_size as int),
{
    match piece.color {
        Color::White => row == 0,
        Color::Black => row == board_size - 1,
    }
}

/// A row or column as a 32-bit signed number: the value modulo 2^32, read
/// in two's complement.
pub open spec fn wrap32(x: int) -> int {
    let m = x % 4294967296;
    if m < 2147483648 {
        m
    } else {
        m - 4294967296
    }
}

/// A row or column that is a 32-bit signed number keeps its value.
pub proof fn lemma_wrap32_small(x: int)
    requires
        0 <= x <= i32::MAX,
    ensures
        wrap32(x) == x,
{
}

/// Whether the differences from the origin to an empty target on the board
/// fit in a 32-bit signed number, the origin's row and column taken as such
/// numbers.
pub open spec fn diffs_fit(g: Grid, fr: int, fc: int, tr: int, tc: int) -> bool {
    on_board(g, tr, tc) && at(g, tr, tc) is None ==> tr - wrap32(fr) <= i32::MAX && tc - wrap32(fc) <= i32::MAX
}

/// Whether `piece` may move from `(from_row, from_col)` to `(to_row,
/// to_col)`. The origin's row and column are taken as 32-bit signed
/// numbers (larger values wrap); the origin square itself is not looked at.
pub fn is_valid_move(
    board: &Board,
    from_row: usize,
    from_col: usize,
    to_row: usize,
    to_col: usize,
    piece: &Piece,
) -> (res: bool)
    requires
        board.wf(),
        diffs_fit(board@, from_row as int, from_col as int, to_row as int, to_col as int),
    ensures
        res == valid_move(board@, wrap32(from_row as int), wrap32(from_col as int), to_row as int, to_col as int, *piece),
{
    proof {
        lemma_board_grid(board);
    }
    if !board.in_bounds(to_row, to_col) {
        return false;
    }
    if board.get_piece(to_row, to_col).is_some() {
        return false;
    }
    let ghost fr = wrap32(from_row as int);
    let ghost fc = wrap32(from_col as int);
    let mr: u64 = (from_row as u64) % 4294967296;
    let mc: u64 = (from_col as u64) % 4294967296;
    let wr: i64 = if mr < 2147483648 { mr as i64 } else { mr as i64 - 4294967296 };
    let wc: i64 = if mc < 2147483648 { mc as i64 } else { mc as i64 - 4294967296 };
    assert(wr == fr && wc == fc);
    let row_diff: i64 = to_row as i64 - wr;
    let col_diff: i64 = to_col as i64 - wc;
    let row_abs: i64 = if row_diff < 0 { -row_diff } else { row_diff };
    let col_abs: i64 = if col_diff < 0 { -col_diff } else { col_diff };
    if col_abs != row_abs {
        return false;
    }
    if row_abs != 1 && row_abs != 2 {
        return false;
    }
    let forward = match piece.color {
        Color::White => row_diff < 0,
        Color::Black => row_diff > 0,
    };
    if !piece.is_king && !forward {
        return false;
    }
    if row_abs == 1 {
        return true;
    }
    let mid_row: i64 = wr + row_diff / 2;
    let mid_col: i64 = wc + col_diff / 2;
    assert(mid_row == fr + row_diff / 2 && mid_col == fc + col_diff / 2);
    if mid_row < 0 || mid_col < 0 {
        return false;
    }
    match board.get_piece(mid_row as usize, mid_col as usize) {
        Some(mid_piece) => mid_piece.color != piece.color,
        None => false,
    }
}

/// The jump offsets of `piece`, in search order.
fn jump_offsets(piece: &Piece) -> (v: Vec<(i64, i64)>)
    ensures
        v@.len() == jump_dirs(*piece).len(),
        forall|i: int| 0 <= i < v@.len() ==> (#[trigger] v@[i]).0 as int == jump_dirs(*piece)[i].0
            && v@[i].1 as int == jump_dirs(*piece)[i].1,
{
    let mut v: Vec<(i64, i64)> = Vec::new();
    if piece.is_king {
        v.push((-2, -2));
        v.push((-2, 2));
        v.push((2, -2));
        v.push((2, 2));
    } else {
        match piece.color {
            Color::White => {
                v.push((-2, -2));
                v.push((-2, 2));
            },
            Color::Black => {
                v.push((2, -2));
                v.push((2, 2));
            },
        }
    }
    v
}

/// The step offsets of `piece`, in listing order.
fn step_offsets(piece: &Piece) -> (v: Vec<(i64, i64)>)
    ensures
        v@.len() == step_dirs(*piece).len(),
        forall|i: int| 0 <= i < v@.len() ==> (#[trigger] v@[i]).0 as int == step_dirs(*piece)[i].0
            && v@[i].1 as int == step_dirs(*piece)[i].1,
{
    let mut v: Vec<(i64, i64)> = Vec::new();
    if piece.is_king {
        v.push((-1, -1));
        v.push((-1, 1));
        v.push((1, -1));
        v.push((1, 1));
    } else {
        match piece.color {
            Color::White => {
                v.push((-1, -1));
                v.push((-1, 1));
            },
            Color::Black => {
                v.push((1, -1));
                v.push((1, 1));
            },
        }
    }
    v
}

/// The square reached from `(row, col)` by the offset `d`, if it is on the board.
fn offset_target(board: &Board, row: usize, col: usize, d: (i64, i64)) -> (res: Option<(usize, usize)>)
    requires
        board.wf(),
        row < board.size,
        col < board.size,
        -2 <= d.0 <= 2,
        -2 <= d.1 <= 2,
    ensures
        match res {
            Some(t) => t.0 as int == row + d.0 && t.1 as int == col + d.1 && t.0 < board.size && t.1 < board.size,
            None => !on_board(board@, row + d.0, col + d.1),
        },
{
    let to_row = row as i64 + d.0;
    let to_col = col as i64 + d.1;
    if to_row < 0 || to_row >= board.size as i64 || to_col < 0 || to_col >= board.size as i64 {
        return None;
    }
    Some((to_row as usize, to_col as usize))
}

/// Whether `piece` on `(row, col)` can take one of its jumps.
fn piece_can_jump(board: &Board, row: usize, col: usize, piece: &Piece) -> (res: bool)
    requires
        board.wf(),
        row < board.size,
        col < board.size,
    ensures
        res == any_jump(board@, row as int, col as int, *piece, jump_dirs(*piece).len() as int),
{
    let dirs = jump_offsets(piece);
    let mut i: usize = 0;
    while i < dirs.len()
        invariant
            board.wf(),
            row < board.size,
            col < board.size,
            i <= dirs@.len(),
            dirs@.len() == jump_dirs(*piece).len(),
            forall|j: int| 0 <= j < dirs@.len() ==> (#[trigger] dirs@[j]).0 as int == jump_dirs(*piece)[j].0
                && dirs@[j].1 as int == jump_dirs(*piece)[j].1,
            !any_jump(board@, row as int, col as int, *piece, i as int),
        decreases dirs@.len() - i,
    {
        let d = dirs[i];
        assert(d.0 as int == jump_dirs(*piece)[i as int].0 && d.1 as int == jump_dirs(*piece)[i as int].1);
        match offset_target(board, row, col, d) {
            Some((tr, tc)) => {
                if is_valid_move(board, row, col, tr, tc, piece) {
                    proof {
                        assert(any_jump(board@, row as int, col as int, *piece, i + 1));
                        lemma_any_jump_mono(board@, row as int, col as int, *piece, i + 1, jump_dirs(*piece).len() as int);
                    }
                    return true;
                }
            },
            None => {},
        }
        i = i + 1;
    }
    false
}

/// Whether `piece` on `(row, col)` can make one of its single steps.
fn piece_can_step(board: &Board, row: usize, col: usize, piece: &Piece) -> (res: bool)
    requires
        board.wf(),
        row < board.size,
        col < board.size,
    ensures
        res == any_step(board@, row as int, col as int, *piece, step_dirs(*piece).len() as int),
{
    let dirs = step_offsets(piece);
    let mut i: usize = 0;
    while i < dirs.len()
        invariant
            board.wf(),
            row < board.size,
            col < board.size,
            i <= dirs@.len(),
            dirs@.len() == step_dirs(*piece).len(),
            forall|j: int| 0 <= j < dirs@.len() ==> (#[trigger] dirs@[j]).0 as int == step_dirs(*piece)[j].0
                && dirs@[j].1 as int == step_dirs(*piece)[j].1,
            !any_step(board@, row as int, col as int, *piece, i as int),
        decreases dirs@.len() - i,
    {
        let d = dirs[i];
        assert(d.0 as int == step_dirs(*piece)[i as int].0 && d.1 as int == step_dirs(*piece)[i as int].1);
        match offset_target(board, row, col, d) {
            Some((tr, tc)) => {
                if is_valid_move(board, row, col, tr, tc, piece) {
                    proof {
                        assert(any_step(board@, row as int, col as int, *piece, i + 1));
                        lemma_any_step_mono(board@, row as int, col as int, *piece, i + 1, step_dirs(*piece).len() as int);
                    }
                    return true;
                }
            },
            None => {},
        }
        i = i + 1;
    }
    false
}

/// Checks if a piece can make a capture
pub fn can_piece_capture(board: &Board, piece_row: usize, piece_col: usize) -> (res: bool)
    requires
        board.wf(),
    ensures
        res == can_capture_from(board@, piece_row as int, piece_col as int),
{
    proof {
        lemma_board_grid(board);
    }
    match board.get_piece(piece_row, piece_col) {
        Some(piece) => piece_can_jump(board, piece_row, piece_col, &piece),
        None => false,
    }
}

/// Checks if a piece has more captures available
pub fn has_more_captures_for_piece(board: &Board, row: usize, col: usize) -> (res: bool)
    requires
        board.wf(),
    ensures
        res == can_capture_from(board@, row as int, col as int),
{
    proof {
        lemma_board_grid(board);
    }
    if let Some(piece) = board.get_piece(row, col) {
        return piece_can_jump(board, row, col, &piece);
    }
    false
}

/// Checks if any piece of the given color has captures available
pub fn has_captures_available(board: &Board, current_player: Color) -> (res: bool)
    requires
        board.wf(),
    ensures
        res == player_can_capture(board@, current_player),
{
    proof {
        lemma_board_grid(board);
    }
    let n = board.size;
    let mut row: usize = 0;
    while row < n
        invariant
            board.wf(),
            n == board.size,
            row <= n,
            forall|r: int, c: int| 0 <= r < row && 0 <= c < n ==> !(owned_by(board@, r, c, current_player)
                && #[trigger] can_capture_from(board@, r, c)),
        decreases n - row,
    {
        let mut col: usize = 0;
        while col < n
            invariant
                board.wf(),
                n == board.size,
                row < n,
                col <= n,
                forall|r: int, c: int| (0 <= r < row && 0 <= c < n) || (r == row && 0 <= c < col)
                    ==> !(owned_by(board@, r, c, current_player) && #[trigger] can_capture_from(board@, r, c)),
            decreases n - col,
        {
            if let Some(piece) = board.get_piece(row, col) {
                if piece.color == current_player {
                    if piece_can_jump(board, row, col, &piece) {
                        assert(owned_by(board@, row as int, col as int, current_player)
                            && can_capture_from(board@, row as int, col as int));
                        return true;
                    }
                }
            }
            col = col + 1;
        }
        row = row + 1;
    }
    false
}

/// Checks if the current player is in a stalemate (no valid moves)
pub fn is_stalemate(board: &Board, current_player: Color) -> (res: bool)
    requires
        board.wf(),
    ensures
        res == stalemate(board@, current_player),
{
    if has_captures_available(board, current_player) {
        return false;
    }
    proof {
        lemma_board_grid(board);
    }
    let n = board.size;
    let mut row: usize = 0;
    while row < n
        invariant
            board.wf(),
            n == board.size,
            row <= n,
            forall|r: int, c: int| 0 <= r < row && 0 <= c < n ==> !(owned_by(board@, r, c, current_player)
                && #[trigger] can_step_from(board@, r, c)),
        decreases n - row,
    {
        let mut col: usize = 0;
        while col < n
            invariant
                board.wf(),
                n == board.size,
                row < n,
                col <= n,
                forall|r: int, c: int| (0 <= r < row && 0 <= c < n) || (r == row && 0 <= c < col)
                    ==> !(owned_by(board@, r, c, current_player) && #[trigger] can_step_from(board@, r, c)),
            decreases n - col,
        {
            if let Some(piece) = board.get_piece(row, col) {
                if piece.color == current_player {
                    if piece_can_step(board, row, col, &piece) {
                        assert(owned_by(board@, row as int, col as int, current_player)
                            && can_step_from(board@, row as int, col as int));
                        return false;
                    }
                }
            }
            col = col + 1;
        }
        row = row + 1;
    }
    true
}

/// Returns all pieces of the given color that can capture
pub fn get_pieces_with_captures(board: &Board, color: Color) -> (res: Vec<(usize, usize)>)
    requires
        board.wf(),
    ensures
        res@ == capture_squares(board@, color),
{
    proof {
        lemma_board_grid(board);
    }
    let mut pieces_with_captures: Vec<(usize, usize)> = Vec::new();
    let n = board.size;
    let mut row: usize = 0;
    while row < n
        invariant
            board.wf(),
            n == board.size,
            row <= n,
            pieces_with_captures@ == capture_squares_upto(board@, color, row as int),
        decreases n - row,
    {
        let mut col: usize = 0;
        while col < n
            invariant
                board.wf(),
                n == board.size,
                row < n,
                col <= n,
                pieces_with_captures@ == capture_squares_upto(board@, color, row as int)
                    + capture_squares_row(board@, color, row as int, col as int),
            decreases n - col,
        {
            if let Some(piece) = board.get_piece(row, col) {
                if piece.color == color && can_piece_capture(board, row, col) {
                    pieces_with_captures.push((row, col));
                }
            }
            proof {
                assert(capture_squares_row(board@, color, row as int, col + 1) == capture_squares_row(board@, color, row as int, col as int)
                    + if owned_by(board@, row as int, col as int, color) && can_capture_from(board@, row as int, col as int) {
                        seq![(row as usize, col as usize)]
                    } else {
                        seq![]
                    });
            }
            col = col + 1;
            assert(pieces_with_captures@ =~= capture_squares_upto(board@, color, row as int)
                + capture_squares_row(board@, color, row as int, col as int));
        }
        row = row + 1;
        assert(pieces_with_captures@ =~= capture_squares_upto(board@, color, row as int));
    }
    pieces_with_captures
}

/// Checks if a player has won the game
pub fn check_winner(board: &Board) -> (res: Option<Color>)
    requires
        board.wf(),
    ensures
        res == winner(board@),
{
    proof {
        lemma_board_grid(board);
    }
    let mut white_pieces = false;
    let mut black_pieces = false;
    let n = board.size;
    let mut row: usize = 0;
    while row < n
        invariant
            board.wf(),
            n == board.size,
            row <= n,
            white_pieces ==> has_pieces(board@, Color::White),
            black_pieces ==> has_pieces(board@, Color::Black),
            !white_pieces ==> forall|r: int, c: int| 0 <= r < row && 0 <= c < n ==> !#[trigger] owned_by(board@, r, c, Color::White),
            !black_pieces ==> forall|r: int, c: int| 0 <= r < row && 0 <= c < n ==> !#[trigger] owned_by(board@, r, c, Color::Black),
        decreases n - row,
    {
        let mut col: usize = 0;
        while col < n
            invariant
                board.wf(),
                n == board.size,
                row < n,
                col <= n,
                white_pieces ==> has_pieces(board@, Color::White),
                black_pieces ==> has_pieces(board@, Color::Black),
                !white_pieces ==> forall|r: int, c: int| (0 <= r < row && 0 <= c < n) || (r == row && 0 <= c < col)
                    ==> !#[trigger] owned_by(board@, r, c, Color::White),
                !black_pieces ==> forall|r: int, c: int| (0 <= r < row && 0 <= c < n) || (r == row && 0 <= c < col)
                    ==> !#[trigger] owned_by(board@, r, c, Color::Black),
            decreases n - col,
        {
            if let Some(piece) = board.get_piece(row, col) {
                match piece.color {
                    Color::White => {
                        assert(owned_by(board@, row as int, col as int, Color::White));
                        white_pieces = true;
                    },
                    Color::Black => {
                        assert(owned_by(board@, row as int, col as int, Color::Black));
                        black_pieces = true;
                    },
                }
                if white_pieces && black_pieces {
                    return None;
                }
            }
            col = col + 1;
        }
        row = row + 1;
    }
    match (white_pieces, black_pieces) {
        (true, false) => Some(Color::White),
        (false, true) => Some(Color::Black),
        _ => None,
    }
}

/// The contents of a list of paths.
pub open spec fn paths_view(v: Seq<Vec<(usize, usize)>>) -> Seq<Seq<(usize, usize)>> {
    Seq::new(v.len(), |i: int| v[i]@)
}

/// The first of `paths[i..]` that ends on `target`.
pub open spec fn first_path_to(paths: Seq<Seq<(usize, usize)>>, target: (usize, usize), i: int) -> Option<Seq<(usize, usize)>>
    decreases paths.len() - i,
{
    if i < 0 || i >= paths.len() {
        None
    } else if paths[i].len() > 0 && paths[i].last() == target {
        Some(paths[i])
    } else {
        first_path_to(paths, target, i + 1)
    }
}

/// The first capture sequence (in search order) of the piece on `(fr, fc)`
/// that ends on `(tr, tc)`.
pub open spec fn capture_path_to(g: Grid, fr: int, fc: int, tr: usize, tc: usize) -> Option<Seq<(usize, usize)>> {
    match at(g, fr, fc) {
        Some(p) => first_path_to(capture_paths(g, fr, fc, p, seq![]), (tr, tc), 0),
        None => None,
    }
}

/// The last squares of the first `k` paths, each listed once, in order of
/// first appearance.
pub open spec fn endpoints(paths: Seq<Seq<(usize, usize)>>, k: int) -> Seq<(usize, usize)>
    decreases k,
{
    if k <= 0 {
        seq![]
    } else {
        let acc = endpoints(paths, k - 1);
        let path = paths[k - 1];
        if path.len() > 0 && !acc.contains(path.last()) {
            acc.push(path.last())
        } else {
            acc
        }
    }
}

/// The squares reached by the allowed ones among the first `k` steps of `p`.
pub open spec fn step_targets(g: Grid, r: int, c: int, p: Piece, k: int) -> Seq<(usize, usize)>
    decreases k,
{
    if k <= 0 {
        seq![]
    } else {
        step_targets(g, r, c, p, k - 1) + if can_move_by(g, r, c, p, step_dirs(p)[k - 1]) {
            seq![landing(r, c, step_dirs(p)[k - 1])]
        } else {
            seq![]
        }
    }
}

/// Where the piece on `(r, c)` may go: the end squares of its capture
/// sequences if it has any, else the squares of its single steps.
pub open spec fn possible_moves(g: Grid, r: int, c: int) -> Seq<(usize, usize)> {
    match at(g, r, c) {
        None => seq![],
        Some(p) => {
            let paths = capture_paths(g, r, c, p, seq![]);
            if paths.len() > 0 {
                endpoints(paths, paths.len() as int)
            } else {
                step_targets(g, r, c, p, step_dirs(p).len() as int)
            }
        },
    }
}

/// Whether `(r, c)` to `d` is a single jump (`want_capture`) or a single step.
pub open spec fn move_kind(r: int, c: int, d: (usize, usize), want_capture: bool) -> bool {
    if want_capture {
        abs(d.0 - r) == 2 && abs(d.1 - c) == 2
    } else {
        !(abs(d.0 - r) == 2 && abs(d.1 - c) == 2) && abs(d.0 - r) == 1 && abs(d.1 - c) == 1
    }
}

/// The moves from `(r, c)` to the first `k` of `dests` that are of the kind asked for.
pub open spec fn classified(r: int, c: int, dests: Seq<(usize, usize)>, k: int, want_capture: bool) -> Seq<Move>
    decreases k,
{
    if k <= 0 {
        seq![]
    } else {
        classified(r, c, dests, k - 1, want_capture) + if move_kind(r, c, dests[k - 1], want_capture) {
            seq![((r as usize, c as usize), dests[k - 1], want_capture)]
        } else {
            seq![]
        }
    }
}

/// The moves of the kind asked for of the piece on `(r, c)` if it is one of `color`'s.
pub open spec fn square_moves(g: Grid, color: Color, r: int, c: int, want_capture: bool) -> Seq<Move> {
    if owned_by(g, r, c, color) {
        let dests = possible_moves(g, r, c);
        classified(r, c, dests, dests.len() as int, want_capture)
    } else {
        seq![]
    }
}

/// The same over the first `k` squares of row `r`.
pub open spec fn row_moves(g: Grid, color: Color, r: int, k: int, want_capture: bool) -> Seq<Move>
    decreases k,
{
    if k <= 0 {
        seq![]
    } else {
        row_moves(g, color, r, k - 1, want_capture) + square_moves(g, color, r, k - 1, want_capture)
    }
}

/// The same over the first `k` rows.
pub open spec fn board_moves(g: Grid, color: Color, k: int, want_capture: bool) -> Seq<Move>
    decreases k,
{
    if k <= 0 {
        seq![]
    } else {
        board_moves(g, color, k - 1, want_capture) + row_moves(g, color, k - 1, g.len() as int, want_capture)
    }
}

/// The moves offered to side `color`, square by square in row order: its
/// single jumps if it has any (a capture is forced), else its single steps.
pub open spec fn valid_moves_for_player(g: Grid, color: Color) -> Seq<Move> {
    let caps = board_moves(g, color, g.len() as int, true);
    if caps.len() > 0 {
        caps
    } else {
        board_moves(g, color, g.len() as int, false)
    }
}

fn copy_path(v: &Vec<(usize, usize)>) -> (res: Vec<(usize, usize)>)
    ensures
        res@ == v@,
{
    let mut res: Vec<(usize, usize)> = Vec::new();
    let mut i: usize = 0;
    while i < v.len()
        invariant
            i <= v@.len(),
            res@ == v@.subrange(0, i as int),
        decreases v@.len() - i,
    {
        res.push(v[i]);
        i = i + 1;
        assert(res@ =~= v@.subrange(0, i as int));
    }
    assert(res@ =~= v@);
    res
}

fn contains_square(v: &Vec<(usize, usize)>, x: (usize, usize)) -> (res: bool)
    ensures
        res == v@.contains(x),
{
    let mut i: usize = 0;
    while i < v.len()
        invariant
            i <= v@.len(),
            forall|j: int| 0 <= j < i ==> v@[j] != x,
        decreases v@.len() - i,
    {
        if v[i].0 == x.0 && v[i].1 == x.1 {
            assert(v@[i as int] == x);
            return true;
        }
        i = i + 1;
    }
    false
}

fn find_capture_moves_recursive(
    board: &Board,
    current_row: usize,
    current_col: usize,
    piece: &Piece,
    current_path: Vec<(usize, usize)>,
    all_capture_paths: &mut Vec<Vec<(usize, usize)>>,
)
    requires
        board.wf(),
        current_row < board.size,
        current_col < board.size,
    ensures
        paths_view(final(all_capture_paths)@) == paths_view(old(all_capture_paths)@)
            + capture_paths(board@, current_row as int, current_col as int, *piece, current_path@),
    decreases grid_count(board@),
{
    let ghost g = board@;
    let ghost r = current_row as int;
    let ghost c = current_col as int;
    let ghost p = *piece;
    let ghost prefix = current_path@;
    let mut found_next_capture = false;
    let dirs = jump_offsets(piece);
    proof {
        lemma_wrap32_small(r);
        lemma_wrap32_small(c);
    }
    let mut i: usize = 0;
    while i < dirs.len()
        invariant
            board.wf(),
            wrap32(r) == r,
            wrap32(c) == c,
            g == board@,
            r == current_row,
            c == current_col,
            p == *piece,
            prefix == current_path@,
            current_row < board.size,
            current_col < board.size,
            i <= dirs@.len(),
            dirs@.len() == jump_dirs(p).len(),
            forall|j: int| 0 <= j < dirs@.len() ==> (#[trigger] dirs@[j]).0 as int == jump_dirs(p)[j].0
                && dirs@[j].1 as int == jump_dirs(p)[j].1,
            found_next_capture == any_jump(g, r, c, p, i as int),
            paths_view(all_capture_paths@) == paths_view(old(all_capture_paths)@) + capture_paths_dirs(g, r, c, p, prefix, i as int),
            !found_next_capture ==> capture_paths_dirs(g, r, c, p, prefix, i as int) == Seq::<Seq<(usize, usize)>>::empty(),
        decreases dirs@.len() - i,
    {
        let d = dirs[i];
        let ghost dd = jump_dirs(p)[i as int];
        assert(d.0 as int == dd.0 && d.1 as int == dd.1);
        assert(dd.0 == 2 || dd.0 == -2);
        let ghost before = paths_view(all_capture_paths@);
        match offset_target(board, current_row, current_col, d) {
            Some((to_row, to_col)) => {
                if is_valid_move(board, current_row, current_col, to_row, to_col, piece) {
                    let mid_row = (current_row + to_row) / 2;
                    let mid_col = (current_col + to_col) / 2;
                    assert(mid_row == jumped_row(r, dd) && mid_col == jumped_col(c, dd));
                    let mut new_board = board.clone();
                    new_board.set_piece(mid_row, mid_col, None);
                    let mut next_path = copy_path(&current_path);
                    next_path.push((to_row, to_col));
                    found_next_capture = true;
                    proof {
                        lemma_remove_piece_count(g, jumped_row(r, dd), jumped_col(c, dd));
                        assert(landing(r, c, dd) == (to_row, to_col));
                    }
                    find_capture_moves_recursive(&new_board, to_row, to_col, piece, next_path, all_capture_paths);
                }
            },
            None => {},
        }
        assert(capture_paths_dirs(g, r, c, p, prefix, i + 1) =~= capture_paths_dirs(g, r, c, p, prefix, i as int)
            + if can_move_by(g, r, c, p, dd) && abs(dd.0) == 2 {
                capture_paths(set_cell(g, jumped_row(r, dd), jumped_col(c, dd), None), r + dd.0, c + dd.1, p,
                    prefix.push(landing(r, c, dd)))
            } else {
                seq![]
            });
        i = i + 1;
        assert(paths_view(all_capture_paths@) =~= paths_view(old(all_capture_paths)@) + capture_paths_dirs(g, r, c, p, prefix, i as int));
    }
    if !found_next_capture && current_path.len() > 0 {
        let ghost before = all_capture_paths@;
        all_capture_paths.push(current_path);
        assert(paths_view(all_capture_paths@) =~= paths_view(before).push(prefix));
        assert(paths_view(all_capture_paths@) =~= paths_view(old(all_capture_paths)@) + seq![prefix]);
    } else {
        assert(paths_view(all_capture_paths@) =~= paths_view(old(all_capture_paths)@)
            + capture_paths(g, r, c, p, prefix));
    }
}

/// Finds, among the capture sequences of the piece on `(from_row, from_col)`,
/// the first one that ends on `(to_row, to_col)`.
pub fn find_capture_path(
    board: &Board,
    from_row: usize,
    from_col: usize,
    to_row: usize,
    to_col: usize,
) -> (res: Option<Vec<(usize, usize)>>)
    requires
        board.wf(),
    ensures
        match res {
            Some(path) => capture_path_to(board@, from_row as int, from_col as int, to_row, to_col) == Some(path@),
            None => capture_path_to(board@, from_row as int, from_col as int, to_row, to_col) is None,
        },
{
    proof {
        lemma_board_grid(board);
    }
    let piece = match board.get_piece(from_row, from_col) {
        Some(p) => p,
        None => return None,
    };
    let mut all_paths: Vec<Vec<(usize, usize)>> = Vec::new();
    find_capture_moves_recursive(board, from_row, from_col, &piece, Vec::new(), &mut all_paths);
    let ghost paths = paths_view(all_paths@);
    assert(paths =~= capture_paths(board@, from_row as int, from_col as int, piece, seq![]));
    let mut i: usize = 0;
    while i < all_paths.len()
        invariant
            i <= all_paths@.len(),
            paths == paths_view(all_paths@),
            paths == capture_paths(board@, from_row as int, from_col as int, piece, seq![]),
            at(board@, from_row as int, from_col as int) == Some(piece),
            first_path_to(paths, (to_row, to_col), 0) == first_path_to(paths, (to_row, to_col), i as int),
        decreases all_paths@.len() - i,
    {
        let path = &all_paths[i];
        assert(path@ == paths[i as int]);
        if path.len() > 0 && path[path.len() - 1].0 == to_row && path[path.len() - 1].1 == to_col {
            assert(paths[i as int].last() == (to_row, to_col));
            assert(first_path_to(paths, (to_row, to_col), i as int) == Some(paths[i as int]));
            return Some(copy_path(path));
        }
        i = i + 1;
    }
    None
}

pub fn get_all_possible_moves(board: &Board, piece_row: usize, piece_col: usize) -> (res: Vec<(usize, usize)>)
    requires
        board.wf(),
    ensures
        res@ == possible_moves(board@, piece_row as int, piece_col as int),
{
    proof {
        lemma_board_grid(board);
    }
    let piece = match board.get_piece(piece_row, piece_col) {
        Some(p) => p,
        None => return Vec::new(),
    };
    let mut all_capture_final_positions: Vec<(usize, usize)> = Vec::new();
    let mut capture_paths_found: Vec<Vec<(usize, usize)>> = Vec::new();
    find_capture_moves_recursive(board, piece_row, piece_col, &piece, Vec::new(), &mut capture_paths_found);
    let ghost paths = paths_view(capture_paths_found@);
    assert(paths =~= capture_paths(board@, piece_row as int, piece_col as int, piece, seq![]));
    if capture_paths_found.len() > 0 {
        let mut i: usize = 0;
        while i < capture_paths_found.len()
            invariant
                i <= capture_paths_found@.len(),
                paths == paths_view(capture_paths_found@),
                all_capture_final_positions@ == endpoints(paths, i as int),
            decreases capture_paths_found@.len() - i,
        {
            let path = &capture_paths_found[i];
            assert(path@ == paths[i as int]);
            if path.len() > 0 {
                let last_pos = path[path.len() - 1];
                if !contains_square(&all_capture_final_positions, last_pos) {
                    all_capture_final_positions.push(last_pos);
                }
            }
            i = i + 1;
        }
        return all_capture_final_positions;
    }
    let mut regular_moves: Vec<(usize, usize)> = Vec::new();
    let dirs = step_offsets(&piece);
    let mut i: usize = 0;
    while i < dirs.len()
        invariant
            board.wf(),
            piece_row < board.size,
            piece_col < board.size,
            i <= dirs@.len(),
            dirs@.len() == step_dirs(piece).len(),
            forall|j: int| 0 <= j < dirs@.len() ==> (#[trigger] dirs@[j]).0 as int == step_dirs(piece)[j].0
                && dirs@[j].1 as int == step_dirs(piece)[j].1,
            regular_moves@ == step_targets(board@, piece_row as int, piece_col as int, piece, i as int),
        decreases dirs@.len() - i,
    {
        let d = dirs[i];
        let ghost dd = step_dirs(piece)[i as int];
        assert(d.0 as int == dd.0 && d.1 as int == dd.1);
        match offset_target(board, piece_row, piece_col, d) {
            Some((to_row, to_col)) => {
                if is_valid_move(board, piece_row, piece_col, to_row, to_col, &piece) {
                    regular_moves.push((to_row, to_col));
                }
            },
            None => {},
        }
        i = i + 1;
        assert(regular_moves@ =~= step_targets(board@, piece_row as int, piece_col as int, piece, i as int));
    }
    regular_moves
}

pub fn get_all_valid_moves_for_player(board: &Board, player_color: Color) -> (res: Vec<Move>)
    requires
        board.wf(),
    ensures
        res@ == valid_moves_for_player(board@, player_color),
{
    proof {
        lemma_board_grid(board);
    }
    let ghost g = board@;
    let mut capture_moves: Vec<Move> = Vec::new();
    let mut regular_moves: Vec<Move> = Vec::new();
    let n = board.size;
    let mut r: usize = 0;
    while r < n
        invariant
            board.wf(),
            g == board@,
            n == board.size,
            r <= n,
            capture_moves@ == board_moves(g, player_color, r as int, true),
            regular_moves@ == board_moves(g, player_color, r as int, false),
        decreases n - r,
    {
        let mut c: usize = 0;
        while c < n
            invariant
                board.wf(),
                g == board@,
                n == board.size,
                r < n,
                c <= n,
                capture_moves@ == board_moves(g, player_color, r as int, true) + row_moves(g, player_color, r as int, c as int, true),
                regular_moves@ == board_moves(g, player_color, r as int, false) + row_moves(g, player_color, r as int, c as int, false),
            decreases n - c,
        {
            let ghost caps0 = capture_moves@;
            let ghost regs0 = regular_moves@;
            if let Some(piece) = board.get_piece(r, c) {
                if piece.color == player_color {
                    let possible_destinations = get_all_possible_moves(board, r, c);
                    let ghost dests = possible_destinations@;
                    let mut k: usize = 0;
                    while k < possible_destinations.len()
                        invariant
                            k <= dests.len(),
                            dests == possible_destinations@,
                            capture_moves@ == caps0 + classified(r as int, c as int, dests, k as int, true),
                            regular_moves@ == regs0 + classified(r as int, c as int, dests, k as int, false),
                        decreases dests.len() - k,
                    {
                        let (to_r, to_c) = possible_destinations[k];
                        let row_abs = if to_r >= r { to_r - r } else { r - to_r };
                        let col_abs = if to_c >= c { to_c - c } else { c - to_c };
                        if row_abs == 2 && col_abs == 2 {
                            capture_moves.push(((r, c), (to_r, to_c), true));
                        } else if row_abs == 1 && col_abs == 1 {
                            regular_moves.push(((r, c), (to_r, to_c), false));
                        }
                        k = k + 1;
                        assert(capture_moves@ =~= caps0 + classified(r as int, c as int, dests, k as int, true));
                        assert(regular_moves@ =~= regs0 + classified(r as int, c as int, dests, k as int, false));
                    }
                }
            }
            c = c + 1;
            assert(capture_moves@ =~= board_moves(g, player_color, r as int, true) + row_moves(g, player_color, r as int, c as int, true));
            assert(regular_moves@ =~= board_moves(g, player_color, r as int, false) + row_moves(g, player_color, r as int, c as int, false));
        }
        r = r + 1;
        assert(capture_moves@ =~= board_moves(g, player_color, r as int, true));
        assert(regular_moves@ =~= board_moves(g, player_color, r as int, false));
    }
    if capture_moves.len() > 0 {
        capture_moves
    } else {
        regular_moves
    }
}

} // verus!
