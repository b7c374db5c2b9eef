//! What the game screen shows, decided from the view of the current state.

use vstd::prelude::*;

use crate::game_core::piece::Color;
use crate::state::view_data::ViewData;
use crate::text::{contains_text, has_text, push_char};

verus! {

/// Which screen is drawn.
#[derive(Debug, Clone, Copy, PartialEq, Eq, Structural)]
pub enum Screen {
    Welcome,
    GameOver,
    Game,
}

/// The welcome screen while there is welcome content, then the end screen
/// once the game is over, else the board.
pub fn screen_for(view: &ViewData) -> (s: Screen)
    ensures
        s == (if view.welcome_content is Some {
            Screen::Welcome
        } else if view.is_game_over {
            Screen::GameOver
        } else {
            Screen::Game
        }),
{
    if view.welcome_content.is_some() {
        Screen::Welcome
    } else if view.is_game_over {
        Screen::GameOver
    } else {
        Screen::Game
    }
}

/// The side the end screen is drawn for, read from the status line: white
/// when black is said to win, black when white is, none otherwise (the
/// end screen names the other side, see `game_over_message`).
pub open spec fn winner_from_status(status: Seq<char>) -> Option<Color> {
    if has_text(status, "Black wins"@) {
        Some(Color::White)
    } else if has_text(status, "White wins"@) {
        Some(Color::Black)
    } else {
        None
    }
}

pub fn game_over_winner(status_message: &str) -> (w: Option<Color>)
    ensures
        w == winner_from_status(status_message@),
{
    if contains_text(status_message, "Black wins") {
        Some(Color::White)
    } else if contains_text(status_message, "White wins") {
        Some(Color::Black)
    } else {
        None
    }
}

/// The line of the end screen for the side it is drawn for.
pub open spec fn game_over_text(winner: Option<Color>) -> Seq<char> {
    match winner {
        Some(Color::Black) => "White wins!"@,
        Some(Color::White) => "Black wins!"@,
        None => "Stalemate! No possible moves."@,
    }
}

pub fn game_over_message(winner: Option<Color>) -> (t: &'static str)
    ensures
        t@ == game_over_text(winner),
{
    proof {
        reveal_strlit("White wins!");
        reveal_strlit("Black wins!");
        reveal_strlit("Stalemate! No possible moves.");
    }
    match winner {
        Some(Color::Black) => "White wins!",
        Some(Color::White) => "Black wins!",
        None => "Stalemate! No possible moves.",
    }
}

/// The controls line under the board.
pub open spec fn controls_line() -> Seq<char> {
    "↑↓←→ Move"@ + "  •  "@ + "Space/Enter Select"@ + "  •  "@ + "ESC/Q Quit"@
}

pub fn controls_text() -> (s: String)
    ensures
        s@ == controls_line(),
{
    let mut s = String::from_str("↑↓←→ Move");
    s.append("  •  ");
    s.append("Space/Enter Select");
    s.append("  •  ");
    s.append("ESC/Q Quit");
    s
}

/// `n` copies of `c`.
pub open spec fn repeated(c: char, n: nat) -> Seq<char> {
    Seq::new(n, |i: int| c)
}

/// A rule of `n` copies of `c`, such as the lines above and below the board.
pub fn separator(c: char, n: usize) -> (s: String)
    ensures
        s@ == repeated(c, n as nat),
{
    let mut s = String::new();
    let mut i: usize = 0;
    while i < n
        invariant
            i <= n,
            s@ == repeated(c, i as nat),
        decreases n - i,
    {
        push_char(&mut s, c);
        i = i + 1;
        assert(s@ =~= repeated(c, i as nat));
    }
    s
}

/// The width of the column the game screen is drawn in.
pub const MAIN_WIDTH: u16 = 64;

/// Where the game screen's column lies across a frame at `x` that is `width`
/// wide: 64 columns in the middle, or the whole frame when it is narrower.
pub fn centered_column(x: u16, width: u16) -> (c: (u16, u16))
    ensures
        c == (if width >= MAIN_WIDTH { (((width - MAIN_WIDTH) / 2) as u16, MAIN_WIDTH) } else { (x, width) }),
{
    if width >= MAIN_WIDTH {
        ((width - MAIN_WIDTH) / 2, MAIN_WIDTH)
    } else {
        (x, width)
    }
}

} // verus!
