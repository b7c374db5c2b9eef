//! A markdown heading: `#` to `######` and its text.

use vstd::prelude::*;

use crate::markdown::style::{fg, PaletteView, StyleWriter, TextColor};
use crate::text::{chars_of, string_of, to_upper, trim, trim_chars, uppercase};

verus! {

/// A heading of level `level`.
pub struct Header {
    level: u8,
    text: String,
}

impl View for Header {
    type V = (u8, Seq<char>);

    closed spec fn view(&self) -> (u8, Seq<char>) {
        (self.level, self.text@)
    }
}

/// The blanks in front of a heading: two per level below the first, none
/// past the sixth.
pub open spec fn indentation_of(level: u8) -> Seq<char> {
    if level == 2 {
        "  "@
    } else if level == 3 {
        "    "@
    } else if level == 4 {
        "      "@
    } else if level == 5 {
        "        "@
    } else if level == 6 {
        "          "@
    } else {
        ""@
    }
}

/// The line of a heading: its indentation and its trimmed text in capitals.
pub open spec fn header_line(h: (u8, Seq<char>)) -> Seq<char> {
    if h.0 == 1 {
        uppercase(trim(h.1))
    } else {
        indentation_of(h.0) + uppercase(trim(h.1))
    }
}

/// What a heading writes with the colours `p`: its line in magenta, then a
/// line break.
pub open spec fn header_output(h: (u8, Seq<char>), p: PaletteView) -> Seq<char> {
    fg(p, TextColor::Magenta) + header_line(h) + p.reset + "\n"@
}

impl Header {
    pub fn new(level: u8, text: String) -> (h: Self)
        ensures
            h@ == (level, text@),
    {
        Header { level, text }
    }

    fn indentation(&self) -> (s: &'static str)
        ensures
            s@ == indentation_of(self@.0),
    {
        proof {
            reveal_strlit("");
            reveal_strlit("  ");
            reveal_strlit("    ");
            reveal_strlit("      ");
            reveal_strlit("        ");
            reveal_strlit("          ");
        }
        match self.level {
            1 => "",
            2 => "  ",
            3 => "    ",
            4 => "      ",
            5 => "        ",
            6 => "          ",
            _ => "",
        }
    }

    pub fn render(&self, writer: &mut StyleWriter)
        ensures
            final(writer).colors() == old(writer).colors(),
            final(writer).text() == old(writer).text() + header_output(self@, old(writer).colors()),
    {
        let chars = chars_of(self.text.as_str());
        let trimmed = string_of(&trim_chars(&chars));
        let upper = to_upper(trimmed.as_str());
        let text = if self.level == 1 {
            upper
        } else {
            let mut t = String::from_str(self.indentation());
            t.append(upper.as_str());
            t
        };
        writer.write_colored(text.as_str(), TextColor::Magenta);
        writer.write_plain("\n");
    }
}

} // verus!
