//! Text written for a terminal: coloured runs, each closed by a reset.

use vstd::prelude::*;

use std::fmt::Write;

use crossterm::style::{Color, ResetColor, SetForegroundColor};

verus! {

/// The colours markdown text is written in.
#[derive(Debug, Clone, Copy, PartialEq, Eq, Structural)]
pub enum TextColor {
    Green,
    Yellow,
    Magenta,
    Blue,
    White,
    Cyan,
}

/// The number of the terminal's 256-colour table that a colour has.
pub open spec fn color_number(c: TextColor) -> Seq<char> {
    match c {
        TextColor::Green => "10"@,
        TextColor::Yellow => "11"@,
        TextColor::Blue => "12"@,
        TextColor::Magenta => "13"@,
        TextColor::Cyan => "14"@,
        TextColor::White => "15"@,
    }
}

/// The escape sequence that sets the text colour to `c`.
pub open spec fn ansi_foreground(c: TextColor) -> Seq<char> {
    "\x1b[38;5;"@ + color_number(c) + "m"@
}

/// What is written in place of a colour when colours are switched off
/// (the environment variable `NO_COLOR` is set and not empty).
pub open spec fn colorless_foreground() -> Seq<char> {
    "\x1b[m"@
}

/// The escape sequence that resets the colours.
pub open spec fn reset_sequence() -> Seq<char> {
    "\x1b[0m"@
}

/// `crossterm::style::SetForegroundColor` written as text. Crossterm writes
/// the colour's 256-colour sequence, or no colour at all (an empty
/// parameter list) when the environment variable `NO_COLOR` is set and not
/// empty. On a Windows console without escape sequences it sets the colour
/// through the console instead and writes nothing, so the text is empty
/// (also when that console call fails; the error is dropped). Which of the
/// three comes is not stated: it rests on the environment and the console.
#[verifier::external_body]
fn foreground_code(color: TextColor) -> (s: String)
    ensures
        s@ == ansi_foreground(color) || s@ == colorless_foreground() || s@ == Seq::<char>::empty(),
{
    let c = match color {
        TextColor::Green => Color::Green,
        TextColor::Yellow => Color::Yellow,
        TextColor::Magenta => Color::Magenta,
        TextColor::Blue => Color::Blue,
        TextColor::White => Color::White,
        TextColor::Cyan => Color::Cyan,
    };
    let mut s = String::new();
    let _ = write!(s, "{}", SetForegroundColor(c));
    s
}

/// `crossterm::style::ResetColor` written as text: `ESC [ 0 m`, or nothing
/// on a Windows console without escape sequences, where crossterm resets the
/// colours through the console instead (a failure there is dropped). Which
/// of the two comes is not stated: it rests on the console.
#[verifier::external_body]
fn reset_code() -> (s: String)
    ensures
        s@ == reset_sequence() || s@ == Seq::<char>::empty(),
{
    let mut s = String::new();
    let _ = write!(s, "{}", ResetColor);
    s
}

/// The escape sequences of the colours and of the reset, as the terminal
/// library writes them.
pub struct Palette {
    green: String,
    yellow: String,
    magenta: String,
    blue: String,
    white: String,
    cyan: String,
    reset: String,
}

/// What a palette holds: the sequence of each colour, then the reset.
pub struct PaletteView {
    pub green: Seq<char>,
    pub yellow: Seq<char>,
    pub magenta: Seq<char>,
    pub blue: Seq<char>,
    pub white: Seq<char>,
    pub cyan: Seq<char>,
    pub reset: Seq<char>,
}

/// The sequence that switches to colour `c`.
pub open spec fn fg(p: PaletteView, c: TextColor) -> Seq<char> {
    match c {
        TextColor::Green => p.green,
        TextColor::Yellow => p.yellow,
        TextColor::Magenta => p.magenta,
        TextColor::Blue => p.blue,
        TextColor::White => p.white,
        TextColor::Cyan => p.cyan,
    }
}

/// Every colour's sequence sets that colour, or no colour when colours are
/// switched off, or is empty where the console is coloured without escape
/// sequences; the reset is the reset, or empty there.
pub open spec fn palette_ok(p: PaletteView) -> bool {
    &&& forall|c: TextColor| #[trigger] fg(p, c) == ansi_foreground(c) || fg(p, c) == colorless_foreground()
        || fg(p, c) == Seq::<char>::empty()
    &&& p.reset == reset_sequence() || p.reset == Seq::<char>::empty()
}

impl View for Palette {
    type V = PaletteView;

    closed spec fn view(&self) -> PaletteView {
        PaletteView {
            green: self.green@,
            yellow: self.yellow@,
            magenta: self.magenta@,
            blue: self.blue@,
            white: self.white@,
            cyan: self.cyan@,
            reset: self.reset@,
        }
    }
}

impl Palette {
    /// The sequences the terminal library writes for each colour.
    pub fn new() -> (p: Self)
        ensures
            palette_ok(p@),
    {
        let p = Palette {
            green: foreground_code(TextColor::Green),
            yellow: foreground_code(TextColor::Yellow),
            magenta: foreground_code(TextColor::Magenta),
            blue: foreground_code(TextColor::Blue),
            white: foreground_code(TextColor::White),
            cyan: foreground_code(TextColor::Cyan),
            reset: reset_code(),
        };
        assert forall|c: TextColor| #[trigger] fg(p@, c) == ansi_foreground(c) || fg(p@, c) == colorless_foreground()
            || fg(p@, c) == Seq::<char>::empty() by {
            match c {
                TextColor::Green => {},
                TextColor::Yellow => {},
                TextColor::Magenta => {},
                TextColor::Blue => {},
                TextColor::White => {},
                TextColor::Cyan => {},
            }
        }
        p
    }

    /// The sequence that switches to colour `c`.
    pub fn code(&self, c: TextColor) -> (s: &str)
        ensures
            s@ == fg(self@, c),
    {
        match c {
            TextColor::Green => self.green.as_str(),
            TextColor::Yellow => self.yellow.as_str(),
            TextColor::Magenta => self.magenta.as_str(),
            TextColor::Blue => self.blue.as_str(),
            TextColor::White => self.white.as_str(),
            TextColor::Cyan => self.cyan.as_str(),
        }
    }

    /// The sequence that resets the colours.
    pub fn reset(&self) -> (s: &str)
        ensures
            s@ == self@.reset,
    {
        self.reset.as_str()
    }
}

impl Clone for Palette {
    fn clone(&self) -> (res: Self)
        ensures
            res@ == self@,
    {
        Palette {
            green: self.green.clone(),
            yellow: self.yellow.clone(),
            magenta: self.magenta.clone(),
            blue: self.blue.clone(),
            white: self.white.clone(),
            cyan: self.cyan.clone(),
            reset: self.reset.clone(),
        }
    }
}

/// Collects text for the terminal: each coloured run is written with its
/// colour's sequence in front and the reset after it.
pub struct StyleWriter {
    output: String,
    palette: Palette,
}

impl StyleWriter {
    /// The text written so far.
    pub closed spec fn text(&self) -> Seq<char> {
        self.output@
    }

    /// The sequences used for the colours.
    pub closed spec fn colors(&self) -> PaletteView {
        self.palette@
    }

    pub fn new() -> (w: Self)
        ensures
            w.text() == Seq::<char>::empty(),
            palette_ok(w.colors()),
    {
        StyleWriter { output: String::new(), palette: Palette::new() }
    }

    /// Writes `text` in colour `color`, then resets the colour.
    pub fn write_colored(&mut self, text: &str, color: TextColor)
        ensures
            final(self).colors() == old(self).colors(),
            final(self).text() == old(self).text() + fg(old(self).colors(), color) + text@ + old(self).colors().reset,
    {
        let code = self.palette.code(color);
        let mut out = String::new();
        out.append(code);
        out.append(text);
        out.append(self.palette.reset());
        self.output.append(out.as_str());
    }

    /// Writes `text` as it is.
    pub fn write_plain(&mut self, text: &str)
        ensures
            final(self).colors() == old(self).colors(),
            final(self).text() == old(self).text() + text@,
    {
        self.output.append(text);
    }

    /// All that was written.
    pub fn into_string(self) -> (s: String)
        ensures
            s@ == self.text(),
    {
        self.output
    }
}

impl Clone for StyleWriter {
    fn clone(&self) -> (res: Self)
        ensures
            res.text() == self.text(),
            res.colors() == self.colors(),
    {
        StyleWriter { output: self.output.clone(), palette: self.palette.clone() }
    }
}

} // verus!
