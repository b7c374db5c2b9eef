use vstd::prelude::*;

verus! {

/// A key the player pressed, as far as the game tells keys apart.
#[derive(Debug, Clone, Copy, PartialEq, Eq, Structural)]
pub enum Key {
    Up,
    Down,
    Left,
    Right,
    Enter,
    Esc,
    Char(char),
    Other,
}

/// A direction the cursor moves in.
#[derive(Debug, Clone, Copy, PartialEq, Eq, Structural)]
pub enum CursorDirection {
    Up,
    Down,
    Left,
    Right,
}

/// What a key asks the game to do.
#[derive(Debug, Clone, Copy, PartialEq, Eq, Structural)]
pub enum GameInput {
    MoveCursor(CursorDirection),
    Select,
    Hint,
    Quit,
}

/// The keys that quit: `q`, `Q`, the same key on Russian, Hebrew, Arabic and
/// Greek layouts, `a`, `A`, and Escape.
pub open spec fn is_quit_key(key: Key) -> bool {
    match key {
        Key::Esc => true,
        Key::Char(c) => c == 'q' || c == 'Q' || c == 'й' || c == 'Й' || c == 'a' || c == 'A'
            || c == 'ק' || c == 'ض' || c == 'θ' || c == 'Θ',
        _ => false,
    }
}

/// What a key asks for, if anything.
pub open spec fn game_input_spec(key: Key) -> Option<GameInput> {
    match key {
        Key::Up => Some(GameInput::MoveCursor(CursorDirection::Up)),
        Key::Down => Some(GameInput::MoveCursor(CursorDirection::Down)),
        Key::Left => Some(GameInput::MoveCursor(CursorDirection::Left)),
        Key::Right => Some(GameInput::MoveCursor(CursorDirection::Right)),
        Key::Enter => Some(GameInput::Select),
        Key::Char(c) => if c == ' ' {
            Some(GameInput::Select)
        } else if c == 'h' || c == 'H' {
            Some(GameInput::Hint)
        } else if is_quit_key(key) {
            Some(GameInput::Quit)
        } else {
            None
        },
        Key::Esc => Some(GameInput::Quit),
        Key::Other => None,
    }
}

/// What a key asks for, if anything.
pub fn game_input_for_key(key: Key) -> (res: Option<GameInput>)
    ensures
        res == game_input_spec(key),
{
    match key {
        Key::Up => Some(GameInput::MoveCursor(CursorDirection::Up)),
        Key::Down => Some(GameInput::MoveCursor(CursorDirection::Down)),
        Key::Left => Some(GameInput::MoveCursor(CursorDirection::Left)),
        Key::Right => Some(GameInput::MoveCursor(CursorDirection::Right)),
        Key::Enter => Some(GameInput::Select),
        Key::Char(c) => {
            if c == ' ' {
                Some(GameInput::Select)
            } else if c == 'h' || c == 'H' {
                Some(GameInput::Hint)
            } else if c == 'q' || c == 'Q' || c == 'й' || c == 'Й' || c == 'a' || c == 'A' || c == 'ק'
                || c == 'ض' || c == 'θ' || c == 'Θ' {
                Some(GameInput::Quit)
            } else {
                None
            }
        },
        Key::Esc => Some(GameInput::Quit),
        Key::Other => None,
    }
}

/// What the welcome screen does with an input: Select starts the game
/// (`true`), Quit leaves (`false`), anything else is ignored.
pub fn welcome_choice(input: GameInput) -> (res: Option<bool>)
    ensures
        res == match input {
            GameInput::Select => Some(true),
            GameInput::Quit => Some(false),
            _ => None::<bool>,
        },
{
    match input {
        GameInput::Select => Some(true),
        GameInput::Quit => Some(false),
        _ => None,
    }
}

/// The inputs of the game screen.
#[derive(Debug, Clone, Copy, PartialEq, Eq, Structural)]
pub enum Input {
    Up,
    Down,
    Left,
    Right,
    Select,
    Quit,
}

/// The input a key gives on the game screen, if any.
pub open spec fn input_spec(key: Key) -> Option<Input> {
    match key {
        Key::Up => Some(Input::Up),
        Key::Down => Some(Input::Down),
        Key::Left => Some(Input::Left),
        Key::Right => Some(Input::Right),
        Key::Enter => Some(Input::Select),
        Key::Esc => Some(Input::Quit),
        Key::Char(c) => if c == ' ' {
            Some(Input::Select)
        } else if c == 'q' || c == 'Q' || c == 'й' || c == 'Й' {
            Some(Input::Quit)
        } else {
            None
        },
        Key::Other => None,
    }
}

pub fn input_for_key(key: Key) -> (res: Option<Input>)
    ensures
        res == input_spec(key),
{
    match key {
        Key::Up => Some(Input::Up),
        Key::Down => Some(Input::Down),
        Key::Left => Some(Input::Left),
        Key::Right => Some(Input::Right),
        Key::Enter => Some(Input::Select),
        Key::Esc => Some(Input::Quit),
        Key::Char(c) => {
            if c == ' ' {
                Some(Input::Select)
            } else if c == 'q' || c == 'Q' || c == 'й' || c == 'Й' {
                Some(Input::Quit)
            } else {
                None
            }
        },
        Key::Other => None,
    }
}

/// The key an input stands for when it is handed to the screens.
pub fn key_for_input(input: Input) -> (key: Key)
    ensures
        key == match input {
            Input::Up => Key::Up,
            Input::Down => Key::Down,
            Input::Left => Key::Left,
            Input::Right => Key::Right,
            Input::Select => Key::Enter,
            Input::Quit => Key::Esc,
        },
{
    match input {
        Input::Up => Key::Up,
        Input::Down => Key::Down,
        Input::Left => Key::Left,
        Input::Right => Key::Right,
        Input::Select => Key::Enter,
        Input::Quit => Key::Esc,
    }
}

} // verus!
