//! A game kept in one place and changed in place: a piece is selected first,
//! then moved.

use vstd::prelude::*;

use crate::board::{Board, Grid, at, initial_grid};
use crate::game_core::game::{is_jump, move_error, moved_grid};
use crate::game_core::game_logic::{self, can_capture_from, player_can_capture, stalemate, valid_move, winner};
use crate::game_core::piece::{Color, Piece, opposite_color};

pub use crate::game_core::game::GameError;

verus! {

pub struct CheckersGame {
    pub board: Board,
    pub current_player: Color,
    pub is_game_over: bool,
    pub selected_piece: Option<(usize, usize)>,
}

/// Why selecting `(row, col)` is refused, if it is (reselecting the selected
/// piece is allowed: it drops the selection).
pub open spec fn legacy_selection_error(g: Grid, cur: Color, selected: Option<(usize, usize)>, row: usize, col: usize) -> Option<GameError> {
    if !(row < g.len() && col < g.len()) {
        Some(GameError::OutOfBounds)
    } else if selected == Some((row, col)) {
        None
    } else {
        match at(g, row as int, col as int) {
            Some(p) => if p.color == cur { None } else { Some(GameError::WrongPieceColor) },
            None => Some(GameError::NoPieceSelected),
        }
    }
}

impl CheckersGame {
    pub open spec fn wf(&self) -> bool {
        self.board.wf()
    }

    pub fn new() -> (game: CheckersGame)
        ensures
            game.wf(),
            game.board.size == 8,
            game.board@ == initial_grid(8),
            game.current_player == Color::White,
            !game.is_game_over,
            game.selected_piece is None,
    {
        let mut board = Board::new(8);
        board.initialize();
        CheckersGame { board, current_player: Color::White, is_game_over: false, selected_piece: None }
    }

    /// Selects the piece on `(row, col)`; selecting it again drops the selection.
    pub fn select_piece(&mut self, row: usize, col: usize) -> (res: Result<(), GameError>)
        requires
            old(self).wf(),
        ensures
            final(self).wf(),
            final(self).board.size == old(self).board.size,
            final(self).board@ == old(self).board@,
            final(self).current_player == old(self).current_player,
            final(self).is_game_over == old(self).is_game_over,
            match res {
                Err(e) => legacy_selection_error(old(self).board@, old(self).current_player, old(self).selected_piece, row, col) == Some(e)
                    && final(self).selected_piece == old(self).selected_piece,
                Ok(()) => legacy_selection_error(old(self).board@, old(self).current_player, old(self).selected_piece, row, col) is None
                    && final(self).selected_piece == if old(self).selected_piece == Some((row, col)) {
                        None
                    } else {
                        Some((row, col))
                    },
            },
    {
        proof {
            game_logic::lemma_board_grid_pub(&self.board);
        }
        if !self.board.in_bounds(row, col) {
            return Err(GameError::OutOfBounds);
        }
        if self.selected_piece == Some((row, col)) {
            self.selected_piece = None;
            return Ok(());
        }
        match self.board.get_piece(row, col) {
            Some(piece) => {
                if piece.color == self.current_player {
                    self.selected_piece = Some((row, col));
                    Ok(())
                } else {
                    Err(GameError::WrongPieceColor)
                }
            },
            None => Err(GameError::NoPieceSelected),
        }
    }

    /// Moves the selected piece to `(to_row, to_col)`. After a jump that can
    /// go on, the piece stays selected and the turn stays; otherwise the
    /// selection is dropped and the turn passes.
    pub fn make_move(&mut self, to_row: usize, to_col: usize) -> (res: Result<(), GameError>)
        requires
            old(self).wf(),
        ensures
            final(self).wf(),
            final(self).board.size == old(self).board.size,
            final(self).is_game_over == old(self).is_game_over,
            match old(self).selected_piece {
                None => res == Err::<(), GameError>(GameError::NoPieceSelected) && final(self).board@ == old(self).board@
                    && final(self).current_player == old(self).current_player && final(self).selected_piece is None,
                Some(from) => match move_error(old(self).board@, old(self).current_player, from.0 as int, from.1 as int, to_row as int, to_col as int) {
                    Some(e) => res == Err::<(), GameError>(e) && final(self).board@ == old(self).board@
                        && final(self).current_player == old(self).current_player
                        && final(self).selected_piece == old(self).selected_piece,
                    None => {
                        let g = old(self).board@;
                        let p = at(g, from.0 as int, from.1 as int)->0;
                        let g2 = moved_grid(g, from.0 as int, from.1 as int, to_row as int, to_col as int, p);
                        let cont = is_jump(from.0 as int, to_row as int) && can_capture_from(g2, to_row as int, to_col as int);
                        &&& res is Ok
                        &&& final(self).board@ == g2
                        &&& final(self).selected_piece == if cont { Some((to_row, to_col)) } else { None }
                        &&& final(self).current_player == if cont { old(self).current_player } else { opposite_color(old(self).current_player) }
                    },
                },
            },
    {
        proof {
            game_logic::lemma_board_grid_pub(&self.board);
        }
        let (from_row, from_col) = match self.selected_piece {
            Some(p) => p,
            None => return Err(GameError::NoPieceSelected),
        };
        let ghost g = self.board@;
        if !self.board.in_bounds(to_row, to_col) {
            return Err(GameError::OutOfBounds);
        }
        let piece = match self.board.get_piece(from_row, from_col) {
            Some(p) => p,
            None => return Err(GameError::NoPieceSelected),
        };
        let row_diff: usize = if to_row >= from_row { to_row - from_row } else { from_row - to_row };
        if self.has_captures_available() {
            if row_diff != 2 {
                return Err(GameError::ForcedCaptureAvailable);
            }
        }
        if !self.is_valid_move(from_row, from_col, to_row, to_col, &piece) {
            return Err(GameError::InvalidMove);
        }
        if row_diff == 2 {
            let mid_row = (from_row + to_row) / 2;
            let mid_col = (from_col + to_col) / 2;
            self.board.set_piece(mid_row, mid_col, None);
        }
        assert(at(self.board@, from_row as int, from_col as int) == Some(piece));
        self.board.move_piece((from_row, from_col), (to_row, to_col));
        if game_logic::should_promote(&piece, to_row, self.board.size) {
            if let Some(mut promoted_piece) = self.board.get_piece(to_row, to_col) {
                promoted_piece.promote_to_king();
                self.board.set_piece(to_row, to_col, Some(promoted_piece));
            }
        }
        assert(self.board@ =~= moved_grid(g, from_row as int, from_col as int, to_row as int, to_col as int, piece));
        if row_diff == 2 && self.has_more_captures_for_piece(to_row, to_col) {
            self.selected_piece = Some((to_row, to_col));
            return Ok(());
        }
        self.selected_piece = None;
        self.switch_player();
        Ok(())
    }

    /// Whether the piece on `(row, col)` can jump again.
    fn has_more_captures_for_piece(&self, row: usize, col: usize) -> (res: bool)
        requires
            self.wf(),
        ensures
            res == can_capture_from(self.board@, row as int, col as int),
    {
        game_logic::has_more_captures_for_piece(&self.board, row, col)
    }

    /// Whether `piece` may move from `(from_row, from_col)` to `(to_row, to_col)`.
    fn is_valid_move(&self, from_row: usize, from_col: usize, to_row: usize, to_col: usize, piece: &Piece) -> (res: bool)
        requires
            self.wf(),
            from_row < self.board.size,
            from_col < self.board.size,
        ensures
            res == valid_move(self.board@, from_row as int, from_col as int, to_row as int, to_col as int, *piece),
    {
        game_logic::is_valid_move(&self.board, from_row, from_col, to_row, to_col, piece)
    }

    pub fn switch_player(&mut self)
        ensures
            final(self).current_player == opposite_color(old(self).current_player),
            final(self).board == old(self).board,
            final(self).is_game_over == old(self).is_game_over,
            final(self).selected_piece == old(self).selected_piece,
    {
        self.current_player = self.current_player.opposite();
    }

    pub fn check_winner(&self) -> (res: Option<Color>)
        requires
            self.wf(),
        ensures
            res == winner(self.board@),
    {
        game_logic::check_winner(&self.board)
    }

    pub fn has_captures_available(&self) -> (res: bool)
        requires
            self.wf(),
        ensures
            res == player_can_capture(self.board@, self.current_player),
    {
        game_logic::has_captures_available(&self.board, self.current_player)
    }

    pub fn is_stalemate(&self) -> (res: bool)
        requires
            self.wf(),
        ensures
            res == stalemate(self.board@, self.current_player),
    {
        game_logic::is_stalemate(&self.board, self.current_player)
    }
}

impl Default for CheckersGame {
    fn default() -> (game: Self)
        ensures
            game.wf(),
            game.board.size == 8,
            game.board@ == initial_grid(8),
            game.current_player == Color::White,
            !game.is_game_over,
            game.selected_piece is None,
    {
        Self::new()
    }
}

} // verus!
