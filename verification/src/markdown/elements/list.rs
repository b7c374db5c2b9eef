//! A markdown list item.

use vstd::prelude::*;

use crate::markdown::style::{fg, PaletteView, StyleWriter, TextColor};

verus! {

/// A list item: its text, and whether it is bold or italic.
pub struct ListItem {
    text: String,
    is_bold: bool,
    is_italic: bool,
}

impl View for ListItem {
    type V = (Seq<char>, bool, bool);

    closed spec fn view(&self) -> (Seq<char>, bool, bool) {
        (self.text@, self.is_bold, self.is_italic)
    }
}

/// The colour of an item: green when bold, else cyan when italic, else white.
pub open spec fn item_color(is_bold: bool, is_italic: bool) -> TextColor {
    if is_bold {
        TextColor::Green
    } else if is_italic {
        TextColor::Cyan
    } else {
        TextColor::White
    }
}

/// What an item writes with the colours `p`: its text in its colour, then a
/// line break.
pub open spec fn item_output(l: (Seq<char>, bool, bool), p: PaletteView) -> Seq<char> {
    fg(p, item_color(l.1, l.2)) + l.0 + p.reset + "\n"@
}

impl ListItem {
    pub fn new(text: String) -> (l: Self)
        ensures
            l@ == (text@, false, false),
    {
        ListItem { text, is_bold: false, is_italic: false }
    }

    pub fn with_formatting(text: String, is_bold: bool, is_italic: bool) -> (l: Self)
        ensures
            l@ == (text@, is_bold, is_italic),
    {
        let mut item = Self::new(text);
        item.is_bold = is_bold;
        item.is_italic = is_italic;
        item
    }

    pub fn render(&self, writer: &mut StyleWriter)
        ensures
            final(writer).colors() == old(writer).colors(),
            final(writer).text() == old(writer).text() + item_output(self@, old(writer).colors()),
    {
        let color = if self.is_bold {
            TextColor::Green
        } else if self.is_italic {
            TextColor::Cyan
        } else {
            TextColor::White
        };
        writer.write_colored(self.text.as_str(), color);
        writer.write_plain("\n");
    }
}

} // verus!
