//! A markdown link: `[text](url)`.

use vstd::prelude::*;

use crate::markdown::style::{fg, PaletteView, StyleWriter, TextColor};

verus! {

/// A link: its text and where it points. Only the text is written.
pub struct Link {
    text: String,
    url: String,
}

impl View for Link {
    type V = (Seq<char>, Seq<char>);

    closed spec fn view(&self) -> (Seq<char>, Seq<char>) {
        (self.text@, self.url@)
    }
}

/// What a link writes with the colours `p`: its text in blue.
pub open spec fn link_output(l: (Seq<char>, Seq<char>), p: PaletteView) -> Seq<char> {
    fg(p, TextColor::Blue) + l.0 + p.reset
}

/// A link's address is never written: two links with the same text write
/// the same.
pub proof fn law_address_not_written(text: Seq<char>, url1: Seq<char>, url2: Seq<char>, p: PaletteView)
    ensures
        link_output((text, url1), p) == link_output((text, url2), p),
{
}

impl Link {
    pub fn new(text: String, url: String) -> (l: Self)
        ensures
            l@ == (text@, url@),
    {
        Link { text, url }
    }

    pub fn render(&self, writer: &mut StyleWriter)
        ensures
            final(writer).colors() == old(writer).colors(),
            final(writer).text() == old(writer).text() + link_output(self@, old(writer).colors()),
    {
        writer.write_colored(self.text.as_str(), TextColor::Blue);
    }
}

} // verus!
