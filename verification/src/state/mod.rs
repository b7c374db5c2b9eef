pub mod ai_state;
pub mod game_session;
pub mod laws;
pub mod machine;
pub mod states;
pub mod transition;
pub mod ui_state;
pub mod view_data;

use vstd::prelude::*;

verus! {

/// Which screen the game is on.
#[derive(Debug, Clone, Copy, PartialEq, Eq, Structural)]
pub enum StateType {
    Welcome,
    Playing,
    PieceSelected,
    AITurn,
    MultiCapture,
    GameOver,
}

} // verus!
