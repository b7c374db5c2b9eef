//! What holds of the screens' handling of the cursor and the selection.

use vstd::prelude::*;

use crate::board::Grid;
use crate::interface::input::Key;
use crate::state::states::cursor_after_key;
use crate::state::game_session::{SessionView, select_outcome, with_ui};
use crate::state::ui_state::{UIView, cleared, selecting};

verus! {

/// An arrow key keeps the cursor on the 8 by 8 board and moves it by at most
/// one square, along one line.
pub proof fn law_cursor_stays_on_board(c: (usize, usize), key: Key)
    requires
        c.0 < 8,
        c.1 < 8,
    ensures
        cursor_after_key(c, key).0 < 8,
        cursor_after_key(c, key).1 < 8,
        cursor_after_key(c, key).0 == c.0 || cursor_after_key(c, key).1 == c.1,
        cursor_after_key(c, key).0 - c.0 <= 1 && c.0 - cursor_after_key(c, key).0 <= 1,
        cursor_after_key(c, key).1 - c.1 <= 1 && c.1 - cursor_after_key(c, key).1 <= 1,
{
}

/// Dropping a selection undoes making it: the screen is as it would be had
/// the selection only been dropped, with the cursor where it was.
pub proof fn law_clear_undoes_select(u: UIView, pos: (usize, usize), g: Grid)
    ensures
        cleared(selecting(u, pos, g)) == cleared(u),
        cleared(selecting(u, pos, g)).cursor == u.cursor,
        cleared(cleared(u)) == cleared(u),
{
}

/// Selecting a piece and selecting it again leaves the session as it was
/// with nothing selected: the second selection undoes the first.
pub proof fn law_reselect_drops_selection(s: SessionView, row: usize, col: usize)
    requires
        s.ui.selected != Some((row, col)),
        select_outcome(s, row, col) is Ok,
    ensures
        select_outcome(select_outcome(s, row, col)->Ok_0, row, col) == Ok::<SessionView, crate::game_core::game::GameError>(with_ui(s, cleared(s.ui))),
{
}

} // verus!
