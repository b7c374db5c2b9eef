use vstd::prelude::*;

use crate::board::{Board, Grid, at, on_board, set_cell, initial_grid};
use crate::game_core::game_logic::{
    self, abs, can_capture_from, player_can_capture, should_promote_spec, stalemate, valid_move,
    winner, can_piece_capture,
};
use crate::game_core::move_history::{MoveHistory, MoveRecord};
use crate::game_core::piece::{Color, Piece, opposite_color};

verus! {

/// Why a selection or a move is refused.
#[derive(Debug, Clone, Copy, PartialEq, Eq, Structural)]
pub enum GameError {
    NoPieceSelected,
    WrongPieceColor,
    InvalidMove,
    ForcedCaptureAvailable,
    OutOfBounds,
}

/// The message shown for each error.
pub open spec fn game_error_message(e: GameError) -> Seq<char> {
    match e {
        GameError::NoPieceSelected => "No piece at selected position"@,
        GameError::WrongPieceColor => "Selected piece belongs to the opponent"@,
        GameError::InvalidMove => "Invalid move"@,
        GameError::ForcedCaptureAvailable => "Forced capture available"@,
        GameError::OutOfBounds => "Position out of bounds"@,
    }
}

impl GameError {
    /// The error's message, as its `Display` would show it.
    pub fn message(&self) -> (s: String)
        ensures
            s@ == game_error_message(*self),
    {
        match self {
            GameError::NoPieceSelected => String::from_str("No piece at selected position"),
            GameError::WrongPieceColor => String::from_str("Selected piece belongs to the opponent"),
            GameError::InvalidMove => String::from_str("Invalid move"),
            GameError::ForcedCaptureAvailable => String::from_str("Forced capture available"),
            GameError::OutOfBounds => String::from_str("Position out of bounds"),
        }
    }
}

/// A game: the board, whose turn it is, whether it is over, and the moves so far.
pub struct CheckersGame {
    pub board: Board,
    pub current_player: Color,
    pub is_game_over: bool,
    pub move_history: MoveHistory,
}

/// Why selecting the piece on `(row, col)` is refused, if it is.
pub open spec fn selection_error(g: Grid, cur: Color, row: int, col: int) -> Option<GameError> {
    if !on_board(g, row, col) {
        Some(GameError::OutOfBounds)
    } else {
        match at(g, row, col) {
            Some(p) => if p.color != cur {
                Some(GameError::WrongPieceColor)
            } else if player_can_capture(g, cur) && !can_capture_from(g, row, col) {
                Some(GameError::ForcedCaptureAvailable)
            } else {
                None
            },
            None => Some(GameError::NoPieceSelected),
        }
    }
}

/// Why the move from `(fr, fc)` to `(tr, tc)` is refused, if it is: the
/// target is off the board, there is no piece to move, a capture is forced
/// but the move is not two rows long, or the rules forbid the move.
pub open spec fn move_error(g: Grid, cur: Color, fr: int, fc: int, tr: int, tc: int) -> Option<GameError> {
    if !on_board(g, tr, tc) {
        Some(GameError::OutOfBounds)
    } else {
        match at(g, fr, fc) {
            None => Some(GameError::NoPieceSelected),
            Some(p) => if player_can_capture(g, cur) && abs(tr - fr) != 2 {
                Some(GameError::ForcedCaptureAvailable)
            } else if !valid_move(g, fr, fc, tr, tc, p) {
                Some(GameError::InvalidMove)
            } else {
                None
            },
        }
    }
}

/// Whether the move from row `fr` to row `tr` is a jump.
pub open spec fn is_jump(fr: int, tr: int) -> bool {
    abs(tr - fr) == 2
}

/// The board after `p` moves from `(fr, fc)` to `(tr, tc)`: a jumped piece
/// is taken off, the piece is moved, and it is crowned on the far row.
pub open spec fn moved_grid(g: Grid, fr: int, fc: int, tr: int, tc: int, p: Piece) -> Grid {
    let g1 = if is_jump(fr, tr) {
        set_cell(g, (fr + tr) / 2, (fc + tc) / 2, None)
    } else {
        g
    };
    let g2 = set_cell(set_cell(g1, tr, tc, Some(p)), fr, fc, None);
    if should_promote_spec(p, tr, g.len() as int) {
        set_cell(g2, tr, tc, Some(Piece { color: p.color, is_king: true }))
    } else {
        g2
    }
}

/// The record of that move, played by `cur`.
pub open spec fn move_record(fr: usize, fc: usize, tr: usize, tc: usize, cur: Color, p: Piece, n: int) -> MoveRecord {
    MoveRecord {
        from: (fr, fc),
        to: (tr, tc),
        player: cur,
        captured: if is_jump(fr as int, tr as int) {
            seq![(((fr + tr) / 2) as usize, ((fc + tc) / 2) as usize)]
        } else {
            seq![]
        },
        became_king: should_promote_spec(p, tr as int, n),
    }
}

/// What a game holds: the board's size and squares, whose turn it is,
/// whether the game is over, and the moves so far.
pub struct GameView {
    pub size: usize,
    pub board: Grid,
    pub player: Color,
    pub over: bool,
    pub history: Seq<MoveRecord>,
}

impl View for CheckersGame {
    type V = GameView;

    open spec fn view(&self) -> GameView {
        GameView {
            size: self.board.size,
            board: self.board@,
            player: self.current_player,
            over: self.is_game_over,
            history: self.move_history@,
        }
    }
}

/// The outcome of playing the move from `(fr, fc)` to `(tr, tc)` in game
/// `v`: the refusal, or the next game and whether the same piece must go on
/// capturing (the turn passes to the other side when it need not).
pub open spec fn play(v: GameView, fr: usize, fc: usize, tr: usize, tc: usize) -> Result<(GameView, bool), GameError> {
    match move_error(v.board, v.player, fr as int, fc as int, tr as int, tc as int) {
        Some(e) => Err(e),
        None => {
            let p = at(v.board, fr as int, fc as int)->0;
            let g2 = moved_grid(v.board, fr as int, fc as int, tr as int, tc as int, p);
            let cont = is_jump(fr as int, tr as int) && can_capture_from(g2, tr as int, tc as int);
            Ok((
                GameView {
                    size: v.size,
                    board: g2,
                    player: if cont { v.player } else { opposite_color(v.player) },
                    over: v.over,
                    history: v.history.push(move_record(fr, fc, tr, tc, v.player, p, v.board.len() as int)),
                },
                cont,
            ))
        },
    }
}

impl CheckersGame {
    /// The game a new session starts with: the starting position on an 8 by
    /// 8 board, white to move, no moves yet.
    pub open spec fn new_spec() -> GameView {
        GameView { size: 8, board: initial_grid(8), player: Color::White, over: false, history: Seq::empty() }
    }

    /// The board is well formed.
    pub open spec fn wf(&self) -> bool {
        self.board.wf()
    }

    pub fn new() -> (game: CheckersGame)
        ensures
            game.wf(),
            game@ == Self::new_spec(),
    {
        let mut board = Board::new(8);
        board.initialize();
        CheckersGame {
            board,
            current_player: Color::White,
            is_game_over: false,
            move_history: MoveHistory::new(),
        }
    }

    pub fn validate_piece_selection(&self, row: usize, col: usize) -> (res: Result<(), GameError>)
        requires
            self.wf(),
        ensures
            match res {
                Ok(()) => selection_error(self.board@, self.current_player, row as int, col as int) is None,
                Err(e) => selection_error(self.board@, self.current_player, row as int, col as int) == Some(e),
            },
    {
        if !self.board.in_bounds(row, col) {
            return Err(GameError::OutOfBounds);
        }
        match self.board.get_piece(row, col) {
            Some(piece) => {
                if piece.color == self.current_player {
                    if self.has_captures_available() && !can_piece_capture(&self.board, row, col) {
                        return Err(GameError::ForcedCaptureAvailable);
                    }
                    Ok(())
                } else {
                    Err(GameError::WrongPieceColor)
                }
            },
            None => Err(GameError::NoPieceSelected),
        }
    }

    /// Plays the move from `(from_row, from_col)` to `(to_row, to_col)` on a
    /// copy of the game. Also says whether the same piece must go on
    /// capturing; if not, the turn passes to the other side.
    pub fn make_move(&self, from_row: usize, from_col: usize, to_row: usize, to_col: usize) -> (res: Result<(CheckersGame, bool), GameError>)
        requires
            self.wf(),
        ensures
            match res {
                Err(e) => play(self@, from_row, from_col, to_row, to_col) == Err::<(GameView, bool), GameError>(e),
                Ok((game, continue_capture)) => {
                    &&& play(self@, from_row, from_col, to_row, to_col) == Ok::<(GameView, bool), GameError>((game@, continue_capture))
                    &&& game.wf()
                },
            },
    {
        let mut new_game = self.clone();
        let ghost g = self.board@;
        proof {
            crate::game_core::game_logic::lemma_board_grid_pub(&self.board);
        }
        if !new_game.board.in_bounds(to_row, to_col) {
            return Err(GameError::OutOfBounds);
        }
        let piece = match new_game.board.get_piece(from_row, from_col) {
            Some(p) => p,
            None => return Err(GameError::NoPieceSelected),
        };
        proof {
            game_logic::lemma_wrap32_small(from_row as int);
            game_logic::lemma_wrap32_small(from_col as int);
        }
        let row_diff_abs: usize = if to_row >= from_row { to_row - from_row } else { from_row - to_row };
        if new_game.has_captures_available() {
            if row_diff_abs != 2 {
                return Err(GameError::ForcedCaptureAvailable);
            }
        }
        if !game_logic::is_valid_move(&new_game.board, from_row, from_col, to_row, to_col, &piece) {
            return Err(GameError::InvalidMove);
        }
        let mut captured: Vec<(usize, usize)> = Vec::new();
        if row_diff_abs == 2 {
            let mid_row = (from_row + to_row) / 2;
            let mid_col = (from_col + to_col) / 2;
            captured.push((mid_row, mid_col));
            new_game.board.set_piece(mid_row, mid_col, None);
        }
        let ghost g1 = new_game.board@;
        assert(at(g1, from_row as int, from_col as int) == Some(piece));
        new_game.board.move_piece((from_row, from_col), (to_row, to_col));
        let mut became_king = false;
        if game_logic::should_promote(&piece, to_row, new_game.board.size) {
            if let Some(mut promoted_piece) = new_game.board.get_piece(to_row, to_col) {
                promoted_piece.promote_to_king();
                new_game.board.set_piece(to_row, to_col, Some(promoted_piece));
                became_king = true;
            }
        }
        assert(new_game.board@ =~= moved_grid(g, from_row as int, from_col as int, to_row as int, to_col as int, piece));
        let player = new_game.current_player;
        new_game.move_history.add_move((from_row, from_col), (to_row, to_col), player, captured, became_king);
        let continue_capture = row_diff_abs == 2 && game_logic::has_more_captures_for_piece(&new_game.board, to_row, to_col);
        if !continue_capture {
            new_game.current_player = new_game.current_player.opposite();
        }
        assert(new_game.move_history@ =~= self.move_history@.push(
            move_record(from_row, from_col, to_row, to_col, self.current_player, piece, g.len() as int)));
        Ok((new_game, continue_capture))
    }

    pub fn check_winner(&self) -> (res: Option<Color>)
        requires
            self.wf(),
        ensures
            res == winner(self.board@),
    {
        game_logic::check_winner(&self.board)
    }

    pub fn has_captures_available(&self) -> (res: bool)
        requires
            self.wf(),
        ensures
            res == player_can_capture(self.board@, self.current_player),
    {
        game_logic::has_captures_available(&self.board, self.current_player)
    }

    pub fn is_stalemate(&self) -> (res: bool)
        requires
            self.wf(),
        ensures
            res == stalemate(self.board@, self.current_player),
    {
        game_logic::is_stalemate(&self.board, self.current_player)
    }

    /// A copy of the game with the turn passed to the other side.
    pub fn with_switched_player(&self) -> (res: CheckersGame)
        ensures
            res.board.size == self.board.size,
            res.board@ == self.board@,
            self.wf() ==> res.wf(),
            res.current_player == opposite_color(self.current_player),
            res.is_game_over == self.is_game_over,
            res.move_history@ == self.move_history@,
    {
        let mut new_game = self.clone();
        new_game.current_player = new_game.current_player.opposite();
        new_game
    }
}

impl Clone for CheckersGame {
    fn clone(&self) -> (res: Self)
        ensures
            res.board.size == self.board.size,
            res.board@ == self.board@,
            self.wf() ==> res.wf(),
            res.current_player == self.current_player,
            res.is_game_over == self.is_game_over,
            res.move_history@ == self.move_history@,
    {
        CheckersGame {
            board: self.board.clone(),
            current_player: self.current_player,
            is_game_over: self.is_game_over,
            move_history: self.move_history.clone(),
        }
    }
}

impl Default for CheckersGame {
    fn default() -> (game: Self)
        ensures
            game.wf(),
            game@ == Self::new_spec(),
    {
        Self::new()
    }
}

} // verus!
