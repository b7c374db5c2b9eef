//! The keys of the first, plain screen.

use vstd::prelude::*;

use crate::interface::input::{CursorDirection, GameInput, Key};

verus! {

/// What a key asks for on the plain screen: the arrows move the cursor,
/// Space and Enter select, `q` and Escape quit; other keys nothing.
pub open spec fn plain_input_spec(key: Key) -> Option<GameInput> {
    match key {
        Key::Up => Some(GameInput::MoveCursor(CursorDirection::Up)),
        Key::Down => Some(GameInput::MoveCursor(CursorDirection::Down)),
        Key::Left => Some(GameInput::MoveCursor(CursorDirection::Left)),
        Key::Right => Some(GameInput::MoveCursor(CursorDirection::Right)),
        Key::Enter => Some(GameInput::Select),
        Key::Esc => Some(GameInput::Quit),
        Key::Char(c) => if c == ' ' {
            Some(GameInput::Select)
        } else if c == 'q' {
            Some(GameInput::Quit)
        } else {
            None
        },
        Key::Other => None,
    }
}

pub fn plain_input_for_key(key: Key) -> (res: Option<GameInput>)
    ensures
        res == plain_input_spec(key),
{
    match key {
        Key::Up => Some(GameInput::MoveCursor(CursorDirection::Up)),
        Key::Down => Some(GameInput::MoveCursor(CursorDirection::Down)),
        Key::Left => Some(GameInput::MoveCursor(CursorDirection::Left)),
        Key::Right => Some(GameInput::MoveCursor(CursorDirection::Right)),
        Key::Enter => Some(GameInput::Select),
        Key::Esc => Some(GameInput::Quit),
        Key::Char(c) => {
            if c == ' ' {
                Some(GameInput::Select)
            } else if c == 'q' {
                Some(GameInput::Quit)
            } else {
                None
            }
        },
        Key::Other => None,
    }
}

} // verus!
