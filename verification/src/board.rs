use vstd::prelude::*;

use crate::game_core::piece::{Color, Piece};

verus! {

/// Boards are at most this many squares wide: a wider one could not be held
/// in memory (it would have more than 2^60 squares), and below it every square
/// index and every sum of two indices fits in an `i32`.
pub const MAX_BOARD_SIZE: usize = 0x4000_0000;

/// The contents of a board, row by row: `g[r][c]` is the square in row `r`,
/// column `c`.
pub type Grid = Seq<Seq<Option<Piece>>>;

/// Every row of the grid is as long as the grid is high.
pub open spec fn grid_wf(g: Grid) -> bool {
    forall|r: int| 0 <= r < g.len() ==> #[trigger] g[r].len() == g.len()
}

/// The square at `(r, c)`, or `None` off the board.
pub open spec fn at(g: Grid, r: int, c: int) -> Option<Piece> {
    if 0 <= r < g.len() && 0 <= c < g[r].len() {
        g[r][c]
    } else {
        None
    }
}

/// Whether `(r, c)` lies on the board.
pub open spec fn on_board(g: Grid, r: int, c: int) -> bool {
    0 <= r < g.len() && 0 <= c < g.len()
}

/// The grid with square `(r, c)` replaced by `v`.
pub open spec fn set_cell(g: Grid, r: int, c: int, v: Option<Piece>) -> Grid {
    g.update(r, g[r].update(c, v))
}

/// An empty grid of `n` by `n` squares.
pub open spec fn empty_grid(n: nat) -> Grid {
    Seq::new(n, |r: int| Seq::new(n, |c: int| None::<Piece>))
}

/// The square `(r, c)` of the starting position on an `n` by `n` board: the
/// dark squares (`r + c` odd) of the three top rows hold black men, those of
/// the three bottom rows hold white men (white wins where both apply).
pub open spec fn initial_square(n: int, r: int, c: int) -> Option<Piece> {
    if (r + c) % 2 == 1 && r >= n - 3 {
        Some(Piece { color: Color::White, is_king: false })
    } else if (r + c) % 2 == 1 && r < 3 {
        Some(Piece { color: Color::Black, is_king: false })
    } else {
        None
    }
}

/// The starting position on an `n` by `n` board.
pub open spec fn initial_grid(n: nat) -> Grid {
    Seq::new(n, |r: int| Seq::new(n, |c: int| initial_square(n as int, r, c)))
}

/// A square board of `size` rows and `size` columns.
pub struct Board {
    pub size: usize,
    pub cells: Vec<Vec<Option<Piece>>>,
}

impl View for Board {
    type V = Grid;

    open spec fn view(&self) -> Grid {
        Seq::new(self.cells@.len(), |r: int| self.cells@[r]@)
    }
}

impl Board {
    /// The board's rows all have `size` squares, there are `size` of them,
    /// and `size` is below `MAX_BOARD_SIZE`.
    pub open spec fn wf(&self) -> bool {
        &&& self.size < MAX_BOARD_SIZE
        &&& self.cells@.len() == self.size
        &&& forall|r: int| 0 <= r < self.size ==> #[trigger] self.cells@[r]@.len() == self.size
    }

    pub fn new(size: usize) -> (b: Board)
        requires
            size < MAX_BOARD_SIZE,
        ensures
            b.wf(),
            b.size == size,
            b@ == empty_grid(size as nat),
    {
        let mut cells: Vec<Vec<Option<Piece>>> = Vec::new();
        let mut r: usize = 0;
        while r < size
            invariant
                r <= size,
                cells@.len() == r,
                forall|i: int| 0 <= i < r ==> #[trigger] cells@[i]@ == Seq::new(size as nat, |c: int| None::<Piece>),
            decreases size - r,
        {
            let mut row: Vec<Option<Piece>> = Vec::new();
            let mut c: usize = 0;
            while c < size
                invariant
                    c <= size,
                    row@ == Seq::new(c as nat, |k: int| None::<Piece>),
                decreases size - c,
            {
                row.push(None);
                c = c + 1;
                assert(row@ =~= Seq::new(c as nat, |k: int| None::<Piece>));
            }
            cells.push(row);
            r = r + 1;
        }
        let b = Board { size, cells };
        assert(b@ =~= empty_grid(size as nat));
        b
    }

    /// Places the pieces of the starting position, after clearing the board.
    pub fn initialize(&mut self)
        requires
            old(self).wf(),
            old(self).size >= 3,
        ensures
            final(self).wf(),
            final(self).size == old(self).size,
            final(self)@ == initial_grid(old(self).size as nat),
    {
        let n = self.size;
        let mut cells: Vec<Vec<Option<Piece>>> = Vec::new();
        let mut r: usize = 0;
        while r < n
            invariant
                n == self.size,
                self.wf(),
                n >= 3,
                r <= n,
                cells@.len() == r,
                forall|i: int| 0 <= i < r ==> #[trigger] cells@[i]@ == Seq::new(n as nat, |c: int| initial_square(n as int, i, c)),
            decreases n - r,
        {
            let mut row: Vec<Option<Piece>> = Vec::new();
            let mut c: usize = 0;
            while c < n
                invariant
                    n >= 3,
                    n < MAX_BOARD_SIZE,
                    r < n,
                    c <= n,
                    row@ == Seq::new(c as nat, |k: int| initial_square(n as int, r as int, k)),
                decreases n - c,
            {
                let dark = (r + c) % 2 == 1;
                let sq = if dark && r >= n - 3 {
                    Some(Piece::new(Color::White))
                } else if dark && r < 3 {
                    Some(Piece::new(Color::Black))
                } else {
                    None
                };
                row.push(sq);
                c = c + 1;
                assert(row@ =~= Seq::new(c as nat, |k: int| initial_square(n as int, r as int, k)));
            }
            cells.push(row);
            r = r + 1;
        }
        self.cells = cells;
        assert(self@ =~= initial_grid(n as nat));
    }

    pub fn in_bounds(&self, row: usize, col: usize) -> (res: bool)
        ensures
            res == (row < self.size && col < self.size),
    {
        row < self.size && col < self.size
    }

    pub fn get_piece(&self, row: usize, col: usize) -> (res: Option<Piece>)
        requires
            self.wf(),
        ensures
            res == at(self@, row as int, col as int),
    {
        if self.in_bounds(row, col) {
            self.cells[row][col]
        } else {
            None
        }
    }

    pub fn set_piece(&mut self, row: usize, col: usize, piece: Option<Piece>) -> (res: bool)
        requires
            old(self).wf(),
        ensures
            final(self).wf(),
            final(self).size == old(self).size,
            res == (row < old(self).size && col < old(self).size),
            res ==> final(self)@ == set_cell(old(self)@, row as int, col as int, piece),
            !res ==> final(self)@ == old(self)@,
    {
        if self.in_bounds(row, col) {
            self.cells[row][col] = piece;
            assert(self@ =~= set_cell(old(self)@, row as int, col as int, piece));
            true
        } else {
            false
        }
    }

    /// Moves the piece on `from` to `to`; `from` is emptied last, so a move
    /// onto its own square takes the piece off the board.
    pub fn move_piece(&mut self, from: (usize, usize), to: (usize, usize)) -> (res: bool)
        requires
            old(self).wf(),
        ensures
            final(self).wf(),
            final(self).size == old(self).size,
            res == (on_board(old(self)@, from.0 as int, from.1 as int) && on_board(old(self)@, to.0 as int, to.1 as int)
                && at(old(self)@, from.0 as int, from.1 as int) is Some),
            res ==> final(self)@ == set_cell(
                set_cell(old(self)@, to.0 as int, to.1 as int, at(old(self)@, from.0 as int, from.1 as int)),
                from.0 as int, from.1 as int, None),
            !res ==> final(self)@ == old(self)@,
    {
        if !self.in_bounds(from.0, from.1) || !self.in_bounds(to.0, to.1) {
            return false;
        }
        let piece = self.get_piece(from.0, from.1);
        if piece.is_none() {
            return false;
        }
        self.set_piece(to.0, to.1, piece);
        self.set_piece(from.0, from.1, None);
        true
    }
}

impl Clone for Board {
    fn clone(&self) -> (res: Self)
        ensures
            res.size == self.size,
            res@ == self@,
            res.cells@.len() == self.cells@.len(),
            self.wf() ==> res.wf(),
    {
        let mut cells: Vec<Vec<Option<Piece>>> = Vec::new();
        let mut r: usize = 0;
        while r < self.cells.len()
            invariant
                r <= self.cells@.len(),
                cells@.len() == r,
                forall|i: int| 0 <= i < r ==> #[trigger] cells@[i]@ == self.cells@[i]@,
            decreases self.cells@.len() - r,
        {
            let src = &self.cells[r];
            let mut row: Vec<Option<Piece>> = Vec::new();
            let mut c: usize = 0;
            while c < src.len()
                invariant
                    c <= src@.len(),
                    row@ == src@.subrange(0, c as int),
                decreases src@.len() - c,
            {
                row.push(src[c]);
                c = c + 1;
                assert(row@ =~= src@.subrange(0, c as int));
            }
            assert(row@ =~= src@);
            cells.push(row);
            r = r + 1;
        }
        let b = Board { size: self.size, cells };
        assert(b@ =~= self@);
        assert(self.wf() ==> b.wf()) by {
            if self.wf() {
                assert forall|r: int| 0 <= r < b.size implies #[trigger] b.cells@[r]@.len() == b.size by {
                    assert(b.cells@[r]@ == self.cells@[r]@);
                }
            }
        }
        b
    }
}

} // verus!
