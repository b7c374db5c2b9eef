//! A game of checkers (draughts) on a square board: the board, the rules,
//! the move history, the session and the screen states that drive a game.

pub mod ai;
pub mod application;
pub mod board;
pub mod game;
pub mod game_core;
pub mod input;
pub mod interface;
pub mod markdown;
pub mod markdown_renderer;
pub mod state;
pub mod test_helpers;
pub mod text;
pub mod ui;
pub mod utils;
