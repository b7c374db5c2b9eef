use vstd::prelude::*;

use crate::board::{Board, Grid};
use crate::game_core::game_logic::{get_all_possible_moves, possible_moves};

verus! {

/// What the player sees besides the board: the selected piece, where it may
/// go, and the cursor.
pub struct UIState {
    pub selected_piece: Option<(usize, usize)>,
    pub possible_moves: Vec<(usize, usize)>,
    pub cursor_pos: (usize, usize),
}

/// What a `UIState` holds.
pub struct UIView {
    pub selected: Option<(usize, usize)>,
    pub moves: Seq<(usize, usize)>,
    pub cursor: (usize, usize),
}

impl View for UIState {
    type V = UIView;

    open spec fn view(&self) -> UIView {
        UIView { selected: self.selected_piece, moves: self.possible_moves@, cursor: self.cursor_pos }
    }
}

/// `u` with nothing selected.
pub open spec fn cleared(u: UIView) -> UIView {
    UIView { selected: None, moves: Seq::empty(), cursor: u.cursor }
}

/// `u` with the piece on `pos` selected, showing where it may go on `g`.
pub open spec fn selecting(u: UIView, pos: (usize, usize), g: Grid) -> UIView {
    UIView { selected: Some(pos), moves: possible_moves(g, pos.0 as int, pos.1 as int), cursor: u.cursor }
}

/// `u` with the cursor moved to `cursor`.
pub open spec fn with_cursor(u: UIView, cursor: (usize, usize)) -> UIView {
    UIView { selected: u.selected, moves: u.moves, cursor }
}

fn copy_squares(v: &Vec<(usize, usize)>) -> (res: Vec<(usize, usize)>)
    ensures
        res@ == v@,
{
    let mut res: Vec<(usize, usize)> = Vec::new();
    let mut i: usize = 0;
    while i < v.len()
        invariant
            i <= v@.len(),
            res@ == v@.subrange(0, i as int),
        decreases v@.len() - i,
    {
        res.push(v[i]);
        i = i + 1;
        assert(res@ =~= v@.subrange(0, i as int));
    }
    assert(res@ =~= v@);
    res
}

impl UIState {
    pub fn new() -> (s: UIState)
        ensures
            s@ == (UIView { selected: None, moves: Seq::empty(), cursor: (0, 0) }),
    {
        UIState { selected_piece: None, possible_moves: Vec::new(), cursor_pos: (0, 0) }
    }

    pub fn move_cursor_up(&self) -> (s: UIState)
        ensures
            s@ == with_cursor(self@, if self.cursor_pos.0 > 0 {
                ((self.cursor_pos.0 - 1) as usize, self.cursor_pos.1)
            } else {
                self.cursor_pos
            }),
    {
        let mut new_state = self.clone();
        if new_state.cursor_pos.0 > 0 {
            new_state.cursor_pos.0 = new_state.cursor_pos.0 - 1;
        }
        new_state
    }

    pub fn move_cursor_down(&self, max_row: usize) -> (s: UIState)
        ensures
            s@ == with_cursor(self@, if self.cursor_pos.0 < max_row {
                ((self.cursor_pos.0 + 1) as usize, self.cursor_pos.1)
            } else {
                self.cursor_pos
            }),
    {
        let mut new_state = self.clone();
        if new_state.cursor_pos.0 < max_row {
            new_state.cursor_pos.0 = new_state.cursor_pos.0 + 1;
        }
        new_state
    }

    pub fn move_cursor_left(&self) -> (s: UIState)
        ensures
            s@ == with_cursor(self@, if self.cursor_pos.1 > 0 {
                (self.cursor_pos.0, (self.cursor_pos.1 - 1) as usize)
            } else {
                self.cursor_pos
            }),
    {
        let mut new_state = self.clone();
        if new_state.cursor_pos.1 > 0 {
            new_state.cursor_pos.1 = new_state.cursor_pos.1 - 1;
        }
        new_state
    }

    pub fn move_cursor_right(&self, max_col: usize) -> (s: UIState)
        ensures
            s@ == with_cursor(self@, if self.cursor_pos.1 < max_col {
                (self.cursor_pos.0, (self.cursor_pos.1 + 1) as usize)
            } else {
                self.cursor_pos
            }),
    {
        let mut new_state = self.clone();
        if new_state.cursor_pos.1 < max_col {
            new_state.cursor_pos.1 = new_state.cursor_pos.1 + 1;
        }
        new_state
    }

    pub fn clear_selection(&self) -> (s: UIState)
        ensures
            s@ == cleared(self@),
    {
        let mut new_state = self.clone();
        new_state.selected_piece = None;
        new_state.possible_moves.clear();
        new_state
    }

    pub fn select_piece(&self, pos: (usize, usize), board: &Board) -> (s: UIState)
        requires
            board.wf(),
        ensures
            s@ == selecting(self@, pos, board@),
    {
        let mut new_state = self.clone();
        new_state.selected_piece = Some(pos);
        new_state.possible_moves = get_all_possible_moves(board, pos.0, pos.1);
        new_state
    }
}

impl Clone for UIState {
    fn clone(&self) -> (res: Self)
        ensures
            res@ == self@,
    {
        UIState {
            selected_piece: self.selected_piece,
            possible_moves: copy_squares(&self.possible_moves),
            cursor_pos: self.cursor_pos,
        }
    }
}

impl Default for UIState {
    fn default() -> (s: Self)
        ensures
            s@ == (UIView { selected: None, moves: Seq::empty(), cursor: (0, 0) }),
    {
        Self::new()
    }
}

} // verus!
