//! Text written for a terminal, switching colour only where it changes.

use vstd::prelude::*;

use crate::markdown::style::{fg, Palette, PaletteView, TextColor, palette_ok};

verus! {

/// Collects text for the terminal. It remembers the colour in force: a
/// colour's sequence is written only when the colour changes, and the reset
/// only before plain text or at the end.
pub struct StyleWriter {
    output: String,
    current_color: Option<TextColor>,
    palette: Palette,
}

/// What is written so far and the colour in force.
pub struct WriterState {
    pub out: Seq<char>,
    pub current: Option<TextColor>,
}

/// The state after writing `text` in colour `c`.
pub open spec fn after_colored(st: WriterState, text: Seq<char>, c: TextColor, p: PaletteView) -> WriterState {
    WriterState {
        out: st.out + (if st.current != Some(c) { fg(p, c) } else { seq![] }) + text,
        current: Some(c),
    }
}

/// The state after writing `text` without colour.
pub open spec fn after_plain(st: WriterState, text: Seq<char>, p: PaletteView) -> WriterState {
    WriterState {
        out: st.out + (if st.current is Some { p.reset } else { seq![] }) + text,
        current: None,
    }
}

/// The text in the end: a colour still in force is reset.
pub open spec fn finished(st: WriterState, p: PaletteView) -> Seq<char> {
    st.out + (if st.current is Some { p.reset } else { seq![] })
}

impl StyleWriter {
    pub closed spec fn state(&self) -> WriterState {
        WriterState { out: self.output@, current: self.current_color }
    }

    pub closed spec fn colors(&self) -> PaletteView {
        self.palette@
    }

    pub fn new() -> (w: Self)
        ensures
            w.state() == (WriterState { out: Seq::empty(), current: None }),
            palette_ok(w.colors()),
    {
        StyleWriter { output: String::new(), current_color: None, palette: Palette::new() }
    }

    pub fn write_colored(&mut self, text: &str, color: TextColor)
        ensures
            final(self).colors() == old(self).colors(),
            final(self).state() == after_colored(old(self).state(), text@, color, old(self).colors()),
    {
        let same = match self.current_color {
            Some(c) => c == color,
            None => false,
        };
        if !same {
            let code = self.palette.code(color);
            let mut s = String::new();
            s.append(code);
            self.output.append(s.as_str());
            self.current_color = Some(color);
        }
        self.output.append(text);
    }

    pub fn write_plain(&mut self, text: &str)
        ensures
            final(self).colors() == old(self).colors(),
            final(self).state() == after_plain(old(self).state(), text@, old(self).colors()),
    {
        if self.current_color.is_some() {
            let mut s = String::new();
            s.append(self.palette.reset());
            self.output.append(s.as_str());
            self.current_color = None;
        }
        self.output.append(text);
    }

    pub fn into_string(self) -> (s: String)
        ensures
            s@ == finished(self.state(), self.colors()),
    {
        let mut out = self.output;
        if self.current_color.is_some() {
            out.append(self.palette.reset());
        }
        out
    }
}

impl Default for StyleWriter {
    fn default() -> (w: Self)
        ensures
            w.state() == (WriterState { out: Seq::empty(), current: None }),
            palette_ok(w.colors()),
    {
        Self::new()
    }
}

impl Clone for StyleWriter {
    fn clone(&self) -> (res: Self)
        ensures
            res.state() == self.state(),
            res.colors() == self.colors(),
    {
        StyleWriter { output: self.output.clone(), current_color: self.current_color, palette: self.palette.clone() }
    }
}

} // verus!
