//! Questions about a session that tests ask.

use vstd::prelude::*;

use crate::state::game_session::GameSession;
use crate::state::ui_state::UIView;

verus! {

/// Whether `to` is two rows and two columns away from `from`.
pub open spec fn two_away(from: (usize, usize), to: (usize, usize)) -> bool {
    (to.0 - from.0 == 2 || from.0 - to.0 == 2) && (to.1 - from.1 == 2 || from.1 - to.1 == 2)
}

/// Whether a piece is selected that may only go on capturing: it has squares
/// to go to, and each is two rows and two columns away.
pub open spec fn multi_capture_pending(ui: UIView) -> bool {
    match ui.selected {
        Some(from) => ui.moves.len() > 0 && forall|i: int| 0 <= i < ui.moves.len() ==> two_away(from, #[trigger] ui.moves[i]),
        None => false,
    }
}

/// Asks whether a session is in the middle of a chain of captures.
pub trait MultiCaptureCheck {
    fn is_in_multi_capture(&self) -> bool;
}

impl MultiCaptureCheck for GameSession {
    fn is_in_multi_capture(&self) -> (res: bool)
        ensures
            res == multi_capture_pending(self.ui_state@),
    {
        match self.ui_state.selected_piece {
            Some((row, col)) => {
                let moves = &self.ui_state.possible_moves;
                if moves.len() == 0 {
                    return false;
                }
                let mut i: usize = 0;
                while i < moves.len()
                    invariant
                        i <= moves@.len(),
                        moves@ == self.ui_state@.moves,
                        moves@.len() > 0,
                        self.ui_state@.selected == Some((row, col)),
                        forall|j: int| 0 <= j < i ==> two_away((row, col), #[trigger] moves@[j]),
                    decreases moves@.len() - i,
                {
                    let (to_row, to_col) = moves[i];
                    let row_two = (to_row >= row && to_row - row == 2) || (row >= to_row && row - to_row == 2);
                    let col_two = (to_col >= col && to_col - col == 2) || (col >= to_col && col - to_col == 2);
                    if !(row_two && col_two) {
                        assert(!two_away((row, col), moves@[i as int]));
                        return false;
                    }
                    i = i + 1;
                }
                true
            },
            None => false,
        }
    }
}

} // verus!
