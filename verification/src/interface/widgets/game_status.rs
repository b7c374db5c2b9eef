//! The status line of the game screen.

use vstd::prelude::*;

use crate::game_core::piece::Color;

verus! {

/// The status widget: whose turn it is, whether the computer is thinking,
/// whether two people play at one keyboard, and the computer's last error.
pub struct GameStatus<'a> {
    pub current_player: Color,
    pub ai_thinking: bool,
    pub is_local_mode: bool,
    pub ai_error: Option<&'a str>,
}

/// The line the status widget shows.
pub open spec fn turn_text(ai_thinking: bool, player: Color) -> Seq<char> {
    if ai_thinking {
        "AI is thinking..."@
    } else {
        match player {
            Color::White => "Current Turn: White"@,
            Color::Black => "Current Turn: Black"@,
        }
    }
}

impl<'a> GameStatus<'a> {
    /// The status of a game where `current_player` is to move, with the
    /// computer idle, no local mode and no error.
    pub fn new(current_player: Color) -> (s: Self)
        ensures
            s.current_player == current_player,
            !s.ai_thinking,
            !s.is_local_mode,
            s.ai_error is None,
    {
        GameStatus { current_player, ai_thinking: false, is_local_mode: false, ai_error: None }
    }

    pub fn ai_thinking(self, thinking: bool) -> (s: Self)
        ensures
            s == (GameStatus { ai_thinking: thinking, ..self }),
    {
        GameStatus { ai_thinking: thinking, ..self }
    }

    pub fn local_mode(self, local: bool) -> (s: Self)
        ensures
            s == (GameStatus { is_local_mode: local, ..self }),
    {
        GameStatus { is_local_mode: local, ..self }
    }

    pub fn ai_error(self, error: Option<&'a str>) -> (s: Self)
        ensures
            s == (GameStatus { ai_error: error, ..self }),
    {
        GameStatus { ai_error: error, ..self }
    }

    /// The line shown: that the computer is thinking, else whose turn it is.
    pub fn turn_text(&self) -> (t: &'static str)
        ensures
            t@ == turn_text(self.ai_thinking, self.current_player),
    {
        proof {
            reveal_strlit("AI is thinking...");
            reveal_strlit("Current Turn: White");
            reveal_strlit("Current Turn: Black");
        }
        if self.ai_thinking {
            "AI is thinking..."
        } else {
            match self.current_player {
                Color::White => "Current Turn: White",
                Color::Black => "Current Turn: Black",
            }
        }
    }
}

} // verus!
