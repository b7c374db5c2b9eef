pub mod ai_turn;
pub mod game_over;
pub mod multi_capture;
pub mod piece_selected;
pub mod playing;
pub mod welcome;

pub use ai_turn::AITurnState;
pub use game_over::GameOverState;
pub use multi_capture::MultiCaptureState;
pub use piece_selected::PieceSelectedState;
pub use playing::PlayingState;
pub use welcome::{WelcomeContent, WelcomeState};

use vstd::prelude::*;

use crate::game_core::game::GameView;
use crate::game_core::game_logic::{stalemate, winner};
use crate::game_core::piece::opposite_color;
use crate::interface::input::Key;
use crate::state::game_session::{GameSession, SessionView, with_ui};
use crate::state::machine::AnyState;
use crate::state::transition::StateTransition;
use crate::state::ui_state::{UIView, with_cursor};

verus! {

/// Where the arrow keys take the cursor, which stays on the 8 by 8 board.
pub open spec fn cursor_after_key(c: (usize, usize), key: Key) -> (usize, usize) {
    match key {
        Key::Up => if c.0 > 0 { ((c.0 - 1) as usize, c.1) } else { c },
        Key::Down => if c.0 < 7 { ((c.0 + 1) as usize, c.1) } else { c },
        Key::Left => if c.1 > 0 { (c.0, (c.1 - 1) as usize) } else { c },
        Key::Right => if c.1 < 7 { (c.0, (c.1 + 1) as usize) } else { c },
        _ => c,
    }
}

/// Whether a key is an arrow key.
pub open spec fn is_arrow(key: Key) -> bool {
    key == Key::Up || key == Key::Down || key == Key::Left || key == Key::Right
}

/// The session with the cursor moved by an arrow key.
pub open spec fn cursor_step(s: SessionView, key: Key) -> SessionView {
    with_ui(s, with_cursor(s.ui, cursor_after_key(s.ui.cursor, key)))
}

/// Moves the cursor by an arrow key.
pub fn move_cursor(session: &GameSession, key: Key) -> (s: GameSession)
    requires
        is_arrow(key),
    ensures
        s@ == cursor_step(session@, key),
        session.wf() ==> s.wf(),
{
    let ui = match key {
        Key::Up => session.ui_state.move_cursor_up(),
        Key::Down => session.ui_state.move_cursor_down(7),
        Key::Left => session.ui_state.move_cursor_left(),
        _ => session.ui_state.move_cursor_right(7),
    };
    session.with_ui_state(ui)
}

/// The session with the game marked as over.
pub open spec fn game_over_view(s: SessionView) -> SessionView {
    SessionView { game: GameView { over: true, ..s.game }, ..s }
}

/// Where the game goes after the player's piece landed on `cursor`: on
/// capturing if it must, to the end of the game if one side is left alone or
/// the side to move is stuck (the other side then wins), else back to play.
pub open spec fn after_move_step(s: SessionView, cont: bool, cursor: (usize, usize)) -> (SessionView, StateTransition) {
    if cont {
        (s, StateTransition::To(AnyState::MultiCapture(MultiCaptureState { capturing_piece: cursor })))
    } else if winner(s.game.board) is Some {
        (game_over_view(s), StateTransition::To(AnyState::GameOver(GameOverState { winner: winner(s.game.board) })))
    } else if stalemate(s.game.board, s.game.player) {
        (game_over_view(s), StateTransition::To(AnyState::GameOver(GameOverState { winner: Some(opposite_color(s.game.player)) })))
    } else {
        (s, StateTransition::To(AnyState::Playing(PlayingState)))
    }
}

/// Ends the game if it is over, as `after_move_step` says.
pub fn finish_move(session: GameSession, cont: bool, cursor: (usize, usize)) -> (res: (GameSession, StateTransition))
    requires
        session.wf(),
    ensures
        (res.0@, res.1) == after_move_step(session@, cont, cursor),
        res.0.wf(),
{
    let mut session = session;
    if cont {
        return (session, StateTransition::To(AnyState::MultiCapture(MultiCaptureState::new(cursor))));
    }
    let winner = session.game.check_winner();
    if winner.is_some() {
        session.game.is_game_over = true;
        return (session, StateTransition::To(AnyState::GameOver(GameOverState::new(winner))));
    }
    if session.game.is_stalemate() {
        let w = Some(session.game.current_player.opposite());
        session.game.is_game_over = true;
        return (session, StateTransition::To(AnyState::GameOver(GameOverState::new(w))));
    }
    (session, StateTransition::To(AnyState::Playing(PlayingState::new())))
}

} // verus!
