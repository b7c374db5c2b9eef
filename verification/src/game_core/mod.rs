pub mod game;
pub mod game_logic;
pub mod laws;
pub mod move_laws;
pub mod piece_laws;
pub mod reach;
pub mod move_history;
pub mod piece;

pub use crate::board;

use vstd::prelude::*;

verus! {

/// A square of the board.
#[derive(Debug, Clone, Copy, PartialEq, Eq, Structural)]
pub struct Position {
    pub row: usize,
    pub col: usize,
}

impl Position {
    pub fn new(row: usize, col: usize) -> (p: Position)
        ensures
            p.row == row,
            p.col == col,
    {
        Position { row, col }
    }
}

impl From<(usize, usize)> for Position {
    fn from(pair: (usize, usize)) -> (p: Position) {
        Position { row: pair.0, col: pair.1 }
    }
}

impl vstd::std_specs::convert::FromSpecImpl<(usize, usize)> for Position {
    open spec fn obeys_from_spec() -> bool {
        true
    }

    open spec fn from_spec(pair: (usize, usize)) -> Position {
        Position { row: pair.0, col: pair.1 }
    }
}

impl From<Position> for (usize, usize) {
    fn from(pos: Position) -> (pair: (usize, usize)) {
        (pos.row, pos.col)
    }
}

impl vstd::std_specs::convert::FromSpecImpl<Position> for (usize, usize) {
    open spec fn obeys_from_spec() -> bool {
        true
    }

    open spec fn from_spec(pos: Position) -> (usize, usize) {
        (pos.row, pos.col)
    }
}

/// A move from one square to another.
#[derive(Debug, Clone, Copy, PartialEq, Eq, Structural)]
pub struct GameMove {
    pub from: Position,
    pub to: Position,
}

impl GameMove {
    pub fn from_tuples(from: (usize, usize), to: (usize, usize)) -> (m: GameMove)
        ensures
            m.from == (Position { row: from.0, col: from.1 }),
            m.to == (Position { row: to.0, col: to.1 }),
    {
        GameMove { from: Position::from(from), to: Position::from(to) }
    }
}

} // verus!
