//! Code in markdown: a span between backticks, or a fenced block.

use vstd::prelude::*;

use crate::markdown::style::{fg, PaletteView, StyleWriter, TextColor};
use crate::text::{chars_of, string_of, trim, trim_chars};

verus! {

/// A piece of code: inline (written in green as it is) or a block (written
/// in yellow, trimmed, on lines of its own).
pub struct CodeBlock {
    content: String,
    is_inline: bool,
}

impl View for CodeBlock {
    type V = (Seq<char>, bool);

    closed spec fn view(&self) -> (Seq<char>, bool) {
        (self.content@, self.is_inline)
    }
}

/// What a piece of code writes with the colours `p`.
pub open spec fn code_output(c: (Seq<char>, bool), p: PaletteView) -> Seq<char> {
    if c.1 {
        fg(p, TextColor::Green) + c.0 + p.reset
    } else {
        "\n"@ + fg(p, TextColor::Yellow) + trim(c.0) + p.reset + "\n"@
    }
}

impl CodeBlock {
    pub fn new_inline(content: String) -> (c: Self)
        ensures
            c@ == (content@, true),
    {
        CodeBlock { content, is_inline: true }
    }

    pub fn new_block(content: String) -> (c: Self)
        ensures
            c@ == (content@, false),
    {
        CodeBlock { content, is_inline: false }
    }

    pub fn render(&self, writer: &mut StyleWriter)
        ensures
            final(writer).colors() == old(writer).colors(),
            final(writer).text() == old(writer).text() + code_output(self@, old(writer).colors()),
    {
        if self.is_inline {
            writer.write_colored(self.content.as_str(), TextColor::Green);
        } else {
            writer.write_plain("\n");
            let chars = chars_of(self.content.as_str());
            let trimmed = string_of(&trim_chars(&chars));
            writer.write_colored(trimmed.as_str(), TextColor::Yellow);
            writer.write_plain("\n");
        }
    }
}

} // verus!
