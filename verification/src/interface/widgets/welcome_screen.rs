//! The welcome screen: the game's title, three short texts about checkers,
//! and how to start.

use vstd::prelude::*;

use crate::interface::welcome_screen::{fill_lines, fill_words, strings_view};
use crate::text::{chars_of, chars_view, words, words_of};

verus! {

/// The welcome widget: a fact, a tip and a challenge, and whether the game
/// is played against the simple computer player.
pub struct WelcomeScreen {
    pub did_you_know: String,
    pub tip_of_the_day: String,
    pub todays_challenge: String,
    pub is_simple_ai: bool,
}

/// The line telling how to start.
pub open spec fn instructions_text(is_simple_ai: bool) -> Seq<char> {
    if is_simple_ai {
        "Press ENTER to play against Simple AI or Q/ESC to quit..."@
    } else {
        "Press ENTER to play against AI or Q/ESC to quit..."@
    }
}

impl WelcomeScreen {
    pub fn new(did_you_know: String, tip_of_the_day: String, todays_challenge: String) -> (w: Self)
        ensures
            w.did_you_know@ == did_you_know@,
            w.tip_of_the_day@ == tip_of_the_day@,
            w.todays_challenge@ == todays_challenge@,
            !w.is_simple_ai,
    {
        WelcomeScreen { did_you_know, tip_of_the_day, todays_challenge, is_simple_ai: false }
    }

    pub fn simple_ai(self, simple: bool) -> (w: Self)
        ensures
            w.did_you_know@ == self.did_you_know@,
            w.tip_of_the_day@ == self.tip_of_the_day@,
            w.todays_challenge@ == self.todays_challenge@,
            w.is_simple_ai == simple,
    {
        WelcomeScreen { is_simple_ai: simple, ..self }
    }

    /// The words of `text` filled into lines of at most `max_width` bytes.
    pub fn wrap_text(&self, text: &str, max_width: usize) -> (lines: Vec<String>)
        ensures
            strings_view(lines@) == fill_words(words(text@), max_width as nat),
    {
        let chars = chars_of(text);
        let ws = words_of(&chars);
        assert(chars_view(ws@) =~= words(text@));
        fill_lines(&ws, max_width)
    }

    /// The line telling how to start.
    pub fn instructions(&self) -> (t: &'static str)
        ensures
            t@ == instructions_text(self.is_simple_ai),
    {
        proof {
            reveal_strlit("Press ENTER to play against Simple AI or Q/ESC to quit...");
            reveal_strlit("Press ENTER to play against AI or Q/ESC to quit...");
        }
        if self.is_simple_ai {
            "Press ENTER to play against Simple AI or Q/ESC to quit..."
        } else {
            "Press ENTER to play against AI or Q/ESC to quit..."
        }
    }
}

} // verus!
