//! A link written through the colour-tracking writer.

use vstd::prelude::*;

use crate::markdown::style::{PaletteView, TextColor};
use crate::utils::markdown::style::{after_colored, StyleWriter};

verus! {

/// A link: its text and where it points. Only the text is written.
pub struct Link {
    text: String,
    url: String,
}

impl View for Link {
    type V = (Seq<char>, Seq<char>);

    closed spec fn view(&self) -> (Seq<char>, Seq<char>) {
        (self.text@, self.url@)
    }
}

impl Link {
    pub fn new(text: String, url: String) -> (l: Self)
        ensures
            l@ == (text@, url@),
    {
        Link { text, url }
    }

    /// Writes the text in blue.
    pub fn render(&self, writer: &mut StyleWriter)
        ensures
            final(writer).colors() == old(writer).colors(),
            final(writer).state() == after_colored(old(writer).state(), self@.0, TextColor::Blue, old(writer).colors()),
    {
        writer.write_colored(self.text.as_str(), TextColor::Blue);
    }
}

} // verus!
