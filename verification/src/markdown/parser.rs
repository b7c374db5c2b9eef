//! Reading markdown into elements and writing them for the terminal.
//!
//! Reading goes over the characters with a position, as a peeking iterator
//! does: each reader looks at the character at the position and moves past
//! what it takes, also when it then finds no element there.

use vstd::prelude::*;

use crate::markdown::elements::code::{code_output, CodeBlock};
use crate::markdown::elements::header::{header_output, Header};
use crate::markdown::elements::link::{link_output, Link};
use crate::markdown::elements::list::{item_output, ListItem};
use crate::markdown::style::{fg, PaletteView, StyleWriter, palette_ok};
use crate::utils::markdown::elements::emphasis::{emphasis_runs, runs_view, Emphasis, Run};
use crate::text::{chars_of, push_char, string_of};

verus! {

/// An element read from markdown.
pub enum Element {
    Header(Header),
    ListItem(ListItem),
    Code(CodeBlock),
    Link(Link),
    Emphasis(Emphasis),
}

/// What an element holds.
pub enum ElementView {
    Header((u8, Seq<char>)),
    ListItem((Seq<char>, bool, bool)),
    Code((Seq<char>, bool)),
    Link((Seq<char>, Seq<char>)),
    Emphasis((Seq<char>, bool)),
}

impl View for Element {
    type V = ElementView;

    open spec fn view(&self) -> ElementView {
        match self {
            Element::Header(h) => ElementView::Header(h@),
            Element::ListItem(l) => ElementView::ListItem(l@),
            Element::Code(c) => ElementView::Code(c@),
            Element::Link(l) => ElementView::Link(l@),
            Element::Emphasis(e) => ElementView::Emphasis(e@),
        }
    }
}

/// Runs written one after the other, each in its colour and reset after.
pub open spec fn runs_output(runs: Seq<Run>, p: PaletteView) -> Seq<char>
    decreases runs.len(),
{
    if runs.len() == 0 {
        seq![]
    } else {
        runs_output(runs.drop_last(), p) + fg(p, runs.last().1) + runs.last().0 + p.reset
    }
}

/// What an element writes with the colours `p`.
pub open spec fn element_output(e: ElementView, p: PaletteView) -> Seq<char> {
    match e {
        ElementView::Header(h) => header_output(h, p),
        ElementView::ListItem(l) => item_output(l, p),
        ElementView::Code(c) => code_output(c, p),
        ElementView::Link(l) => link_output(l, p),
        ElementView::Emphasis(m) => runs_output(emphasis_runs(m), p),
    }
}

impl Element {
    pub fn render(&self, writer: &mut StyleWriter)
        ensures
            final(writer).colors() == old(writer).colors(),
            final(writer).text() == old(writer).text() + element_output(self@, old(writer).colors()),
    {
        match self {
            Element::Header(h) => h.render(writer),
            Element::ListItem(l) => l.render(writer),
            Element::Code(c) => c.render(writer),
            Element::Link(l) => l.render(writer),
            Element::Emphasis(e) => {
                let runs = e.runs();
                let ghost p = writer.colors();
                let ghost t0 = writer.text();
                let mut i: usize = 0;
                while i < runs.len()
                    invariant
                        i <= runs@.len(),
                        writer.colors() == p,
                        writer.text() == t0 + runs_output(runs_view(runs@).take(i as int), p),
                    decreases runs@.len() - i,
                {
                    writer.write_colored(runs[i].0.as_str(), runs[i].1);
                    proof {
                        let rs = runs_view(runs@);
                        assert(rs.take(i + 1).drop_last() =~= rs.take(i as int));
                        assert(rs.take(i + 1).last() == rs[i as int]);
                    }
                    i = i + 1;
                }
                assert(runs_view(runs@).take(runs@.len() as int) =~= runs_view(runs@));
            },
        }
    }
}

// ---------------------------------------------------------------------------
// Scanning helpers

/// The text from `i` up to the first `c` (which is passed over), and where
/// reading goes on.
pub open spec fn until_char(s: Seq<char>, i: int, c: char) -> (Seq<char>, int)
    decreases s.len() - i,
{
    if i < 0 || i >= s.len() {
        (seq![], s.len() as int)
    } else if s[i] == c {
        (seq![], i + 1)
    } else {
        let (t, j) = until_char(s, i + 1, c);
        (seq![s[i]] + t, j)
    }
}

pub proof fn lemma_until_char_ahead(s: Seq<char>, i: int, c: char)
    requires
        0 <= i <= s.len(),
    ensures
        i <= until_char(s, i, c).1 <= s.len(),
        i < s.len() ==> until_char(s, i, c).1 > i,
    decreases s.len() - i,
{
    if i < s.len() {
        lemma_until_char_ahead(s, i + 1, c);
    }
}

fn scan_until(chars: &Vec<char>, start: usize, c: char) -> (res: (Vec<char>, usize))
    requires
        start <= chars@.len(),
    ensures
        (res.0@, res.1 as int) == until_char(chars@, start as int, c),
{
    let ghost s = chars@;
    let mut text: Vec<char> = Vec::new();
    let mut j = start;
    while j < chars.len() && chars[j] != c
        invariant
            start <= j <= s.len(),
            chars@ == s,
            until_char(s, start as int, c) == (text@ + until_char(s, j as int, c).0, until_char(s, j as int, c).1),
        decreases s.len() - j,
    {
        text.push(chars[j]);
        j = j + 1;
        assert(text@ + until_char(s, j as int, c).0 =~= text@.drop_last() + (seq![s[j - 1]] + until_char(s, j as int, c).0));
    }
    assert(text@ + Seq::<char>::empty() =~= text@);
    if j < chars.len() {
        (text, j + 1)
    } else {
        (text, j)
    }
}

/// How many `#` follow one another from `i`.
pub open spec fn count_hashes(s: Seq<char>, i: int) -> nat
    decreases s.len() - i,
{
    if 0 <= i < s.len() && s[i] == '#' {
        1 + count_hashes(s, i + 1)
    } else {
        0
    }
}

/// Where the blanks from `i` end.
pub open spec fn skip_blanks(s: Seq<char>, i: int) -> int
    decreases s.len() - i,
{
    if 0 <= i < s.len() && s[i] == ' ' {
        skip_blanks(s, i + 1)
    } else {
        i
    }
}

pub proof fn lemma_skip_blanks(s: Seq<char>, i: int)
    requires
        0 <= i <= s.len(),
    ensures
        i <= skip_blanks(s, i) <= s.len(),
    decreases s.len() - i,
{
    if i < s.len() && s[i] == ' ' {
        lemma_skip_blanks(s, i + 1);
    }
}

pub proof fn lemma_count_hashes(s: Seq<char>, i: int)
    requires
        0 <= i <= s.len(),
    ensures
        i + count_hashes(s, i) <= s.len(),
    decreases s.len() - i,
{
    if i < s.len() && s[i] == '#' {
        lemma_count_hashes(s, i + 1);
    }
}

// ---------------------------------------------------------------------------
// Headings

/// A heading at `pos`: its level is the number of `#`, its text the rest of
/// the line after the blanks; the line break is passed over.
pub open spec fn header_parse(s: Seq<char>, pos: int) -> (Option<ElementView>, int) {
    if !(0 <= pos < s.len()) || s[pos] != '#' {
        (None, pos)
    } else {
        let n = count_hashes(s, pos);
        let (text, j) = until_char(s, skip_blanks(s, pos + n), '\n');
        (Some(ElementView::Header((n as u8, text))), j)
    }
}

/// Whether reading a heading at `pos` keeps its level within a byte.
pub open spec fn header_ok(s: Seq<char>, pos: int) -> bool {
    count_hashes(s, pos) <= 255
}

/// Reads a heading.
pub struct HeaderParser;

impl HeaderParser {
    pub fn try_parse(&self, chars: &Vec<char>, pos: usize) -> (res: (Option<Element>, usize))
        requires
            pos <= chars@.len(),
            header_ok(chars@, pos as int),
        ensures
            (match res.0 { Some(e) => Some(e@), None => None }, res.1 as int) == header_parse(chars@, pos as int),
    {
        let ghost s = chars@;
        if pos >= chars.len() || chars[pos] != '#' {
            return (None, pos);
        }
        let mut level: u8 = 1;
        let mut i = pos + 1;
        proof {
            lemma_count_hashes(s, pos as int);
        }
        while i < chars.len() && chars[i] == '#'
            invariant
                chars@ == s,
                pos < i <= s.len(),
                level as int == i - pos,
                count_hashes(s, pos as int) == (i - pos) + count_hashes(s, i as int),
                count_hashes(s, pos as int) <= 255,
            decreases s.len() - i,
        {
            level = level + 1;
            i = i + 1;
        }
        assert(count_hashes(s, i as int) == 0);
        let ghost after = i;
        while i < chars.len() && chars[i] == ' '
            invariant
                chars@ == s,
                after <= i <= s.len(),
                skip_blanks(s, after as int) == skip_blanks(s, i as int),
            decreases s.len() - i,
        {
            i = i + 1;
        }
        let (text, next) = scan_until(chars, i, '\n');
        let t = string_of(&text);
        (Some(Element::Header(Header::new(level, t))), next)
    }
}

// ---------------------------------------------------------------------------
// List items

/// The text of a list item from `i` to the end of the line, with the `**`
/// and `*` markers taken out, and whether an odd number of each was met;
/// then where reading goes on.
pub open spec fn item_text(s: Seq<char>, i: int, bold: bool, italic: bool) -> (Seq<char>, bool, bool, int)
    decreases s.len() - i,
{
    if i < 0 || i >= s.len() {
        (seq![], bold, italic, s.len() as int)
    } else if s[i] == '\n' {
        (seq![], bold, italic, i + 1)
    } else if s[i] == '*' {
        if i + 1 < s.len() && s[i + 1] == '*' {
            item_text(s, i + 2, !bold, italic)
        } else {
            item_text(s, i + 1, bold, !italic)
        }
    } else {
        let (t, b, it, j) = item_text(s, i + 1, bold, italic);
        (seq![s[i]] + t, b, it, j)
    }
}

pub proof fn lemma_item_text_ahead(s: Seq<char>, i: int, bold: bool, italic: bool)
    requires
        0 <= i <= s.len(),
    ensures
        i <= item_text(s, i, bold, italic).3 <= s.len(),
        i < s.len() ==> item_text(s, i, bold, italic).3 > i,
    decreases s.len() - i,
{
    if i < s.len() && s[i] != '\n' {
        if s[i] == '*' && i + 1 < s.len() && s[i + 1] == '*' {
            lemma_item_text_ahead(s, i + 2, !bold, italic);
        } else if s[i] == '*' {
            lemma_item_text_ahead(s, i + 1, bold, !italic);
        } else {
            lemma_item_text_ahead(s, i + 1, bold, italic);
        }
    }
}

/// A list item at `pos`: `-`, a blank, and the rest of the line. A `-`
/// without the blank is passed over and gives nothing.
pub open spec fn list_parse(s: Seq<char>, pos: int) -> (Option<ElementView>, int) {
    if !(0 <= pos < s.len()) || s[pos] != '-' {
        (None, pos)
    } else if !(pos + 1 < s.len()) || s[pos + 1] != ' ' {
        (None, pos + 1)
    } else {
        let (t, b, it, j) = item_text(s, pos + 2, false, false);
        (Some(ElementView::ListItem((t, b, it))), j)
    }
}

/// Reads a list item.
pub struct ListItemParser;

impl ListItemParser {
    pub fn try_parse(&self, chars: &Vec<char>, pos: usize) -> (res: (Option<Element>, usize))
        requires
            pos <= chars@.len(),
        ensures
            (match res.0 { Some(e) => Some(e@), None => None }, res.1 as int) == list_parse(chars@, pos as int),
    {
        let ghost s = chars@;
        if pos >= chars.len() || chars[pos] != '-' {
            return (None, pos);
        }
        if pos + 1 >= chars.len() || chars[pos + 1] != ' ' {
            return (None, pos + 1);
        }
        let mut text: Vec<char> = Vec::new();
        let mut is_bold = false;
        let mut is_italic = false;
        let mut i = pos + 2;
        let ghost goal = item_text(s, pos + 2, false, false);
        while i < chars.len() && chars[i] != '\n'
            invariant
                chars@ == s,
                pos + 2 <= i <= s.len(),
                goal == ({
                    let r = item_text(s, i as int, is_bold, is_italic);
                    (text@ + r.0, r.1, r.2, r.3)
                }),
            decreases s.len() - i,
        {
            if chars[i] == '*' {
                if i + 1 < chars.len() && chars[i + 1] == '*' {
                    is_bold = !is_bold;
                    i = i + 2;
                } else {
                    is_italic = !is_italic;
                    i = i + 1;
                }
            } else {
                let ghost r = item_text(s, i + 1, is_bold, is_italic);
                text.push(chars[i]);
                i = i + 1;
                assert(text@ + r.0 =~= text@.drop_last() + (seq![s[i - 1]] + r.0));
            }
        }
        assert(text@ + Seq::<char>::empty() =~= text@);
        let next = if i < chars.len() { i + 1 } else { i };
        let t = string_of(&text);
        (Some(Element::ListItem(ListItem::with_formatting(t, is_bold, is_italic))), next)
    }
}

// ---------------------------------------------------------------------------
// Code

/// The content of a fenced block from `i`: a backtick passes over itself
/// and the character after it, and closes the block when a third backtick
/// follows; otherwise the next character is taken into the content.
pub open spec fn fence_content(s: Seq<char>, i: int) -> (Seq<char>, int)
    decreases s.len() - i,
{
    if i < 0 || i >= s.len() {
        (seq![], s.len() as int)
    } else if s[i] == '`' {
        let j = if i + 2 <= s.len() { i + 2 } else { s.len() as int };
        if j < s.len() && s[j] == '`' {
            (seq![], j + 1)
        } else if j < s.len() {
            let (t, k) = fence_content(s, j + 1);
            (seq![s[j]] + t, k)
        } else {
            (seq![], s.len() as int)
        }
    } else {
        let (t, k) = fence_content(s, i + 1);
        (seq![s[i]] + t, k)
    }
}

/// Whether reading a fenced block from `i` never runs out of characters
/// right after a backtick that does not close it.
pub open spec fn fence_ok(s: Seq<char>, i: int) -> bool
    decreases s.len() - i,
{
    if i < 0 || i >= s.len() {
        true
    } else if s[i] == '`' {
        let j = if i + 2 <= s.len() { i + 2 } else { s.len() as int };
        if j < s.len() && s[j] == '`' {
            true
        } else if j < s.len() {
            fence_ok(s, j + 1)
        } else {
            false
        }
    } else {
        fence_ok(s, i + 1)
    }
}

pub proof fn lemma_fence_ahead(s: Seq<char>, i: int)
    requires
        0 <= i <= s.len(),
    ensures
        i <= fence_content(s, i).1 <= s.len(),
        i < s.len() ==> fence_content(s, i).1 > i,
    decreases s.len() - i,
{
    if i < s.len() {
        if s[i] == '`' {
            let j = if i + 2 <= s.len() { i + 2 } else { s.len() as int };
            if j < s.len() && s[j] != '`' {
                lemma_fence_ahead(s, j + 1);
            }
        } else {
            lemma_fence_ahead(s, i + 1);
        }
    }
}

/// Code at `pos`: three backticks open a fenced block, one opens a span up
/// to the next backtick. Two backticks not followed by a third are passed
/// over and give nothing.
pub open spec fn code_parse(s: Seq<char>, pos: int) -> (Option<ElementView>, int) {
    if !(0 <= pos < s.len()) || s[pos] != '`' {
        (None, pos)
    } else if pos + 1 < s.len() && s[pos + 1] == '`' {
        if pos + 2 < s.len() && s[pos + 2] == '`' {
            let (t, j) = fence_content(s, pos + 3);
            (Some(ElementView::Code((t, false))), j)
        } else {
            (None, pos + 2)
        }
    } else {
        let (t, j) = until_char(s, pos + 1, '`');
        (Some(ElementView::Code((t, true))), j)
    }
}

/// Whether reading code at `pos` stays within the characters.
pub open spec fn code_ok(s: Seq<char>, pos: int) -> bool {
    (0 <= pos && pos + 2 < s.len() && s[pos] == '`' && s[pos + 1] == '`' && s[pos + 2] == '`') ==> fence_ok(s, pos + 3)
}

/// Reads code.
pub struct CodeBlockParser;

impl CodeBlockParser {
    pub fn try_parse(&self, chars: &Vec<char>, pos: usize) -> (res: (Option<Element>, usize))
        requires
            pos <= chars@.len(),
            code_ok(chars@, pos as int),
        ensures
            (match res.0 { Some(e) => Some(e@), None => None }, res.1 as int) == code_parse(chars@, pos as int),
    {
        let ghost s = chars@;
        if pos >= chars.len() || chars[pos] != '`' {
            return (None, pos);
        }
        if pos + 1 < chars.len() && chars[pos + 1] == '`' {
            if pos + 2 < chars.len() && chars[pos + 2] == '`' {
                let mut content: Vec<char> = Vec::new();
                let mut i = pos + 3;
                let ghost goal = fence_content(s, pos + 3);
                loop
                    invariant_except_break
                        chars@ == s,
                        pos + 3 <= i <= s.len(),
                        fence_ok(s, i as int),
                        goal == (content@ + fence_content(s, i as int).0, fence_content(s, i as int).1),
                    ensures
                        goal == (content@, i as int),
                    decreases s.len() - i,
                {
                    if i >= chars.len() {
                        assert(content@ + Seq::<char>::empty() =~= content@);
                        break;
                    }
                    if chars[i] == '`' {
                        let j = if i + 2 <= chars.len() { i + 2 } else { chars.len() };
                        if j < chars.len() && chars[j] == '`' {
                            i = j + 1;
                            assert(content@ + Seq::<char>::empty() =~= content@);
                            break;
                        }
                        let ghost r = fence_content(s, j + 1);
                        content.push(chars[j]);
                        assert(content@ + r.0 =~= content@.drop_last() + (seq![s[j as int]] + r.0));
                        i = j + 1;
                    } else {
                        let ghost r = fence_content(s, i + 1);
                        content.push(chars[i]);
                        assert(content@ + r.0 =~= content@.drop_last() + (seq![s[i as int]] + r.0));
                        i = i + 1;
                    }
                }
                let t = string_of(&content);
                return (Some(Element::Code(CodeBlock::new_block(t))), i);
            }
            return (None, pos + 2);
        }
        let (text, next) = scan_until(chars, pos + 1, '`');
        let t = string_of(&text);
        (Some(Element::Code(CodeBlock::new_inline(t))), next)
    }
}

// ---------------------------------------------------------------------------
// Links

/// A link at `pos`: its text up to `]`, and, when `(` follows, its address
/// up to `)`.
pub open spec fn link_parse(s: Seq<char>, pos: int) -> (Option<ElementView>, int) {
    if !(0 <= pos < s.len()) || s[pos] != '[' {
        (None, pos)
    } else {
        let (text, j) = until_char(s, pos + 1, ']');
        if 0 <= j < s.len() && s[j] == '(' {
            let (url, k) = until_char(s, j + 1, ')');
            (Some(ElementView::Link((text, url))), k)
        } else {
            (Some(ElementView::Link((text, seq![]))), j)
        }
    }
}

/// Reads a link.
pub struct LinkParser;

impl LinkParser {
    pub fn try_parse(&self, chars: &Vec<char>, pos: usize) -> (res: (Option<Element>, usize))
        requires
            pos <= chars@.len(),
        ensures
            (match res.0 { Some(e) => Some(e@), None => None }, res.1 as int) == link_parse(chars@, pos as int),
    {
        if pos >= chars.len() || chars[pos] != '[' {
            return (None, pos);
        }
        let (text, j) = scan_until(chars, pos + 1, ']');
        proof {
            lemma_until_char_ahead(chars@, pos + 1, ']');
        }
        let t = string_of(&text);
        if j < chars.len() && chars[j] == '(' {
            let (url, k) = scan_until(chars, j + 1, ')');
            let u = string_of(&url);
            (Some(Element::Link(Link::new(t, u))), k)
        } else {
            (Some(Element::Link(Link::new(t, String::new()))), j)
        }
    }
}

// ---------------------------------------------------------------------------
// Emphasis

/// The text of an emphasis from `i` up to its closing marker (`**` for
/// bold, `*` for italic), which is passed over; markers of the other kind
/// are kept in the text.
pub open spec fn emphasis_text(s: Seq<char>, i: int, bold: bool) -> (Seq<char>, int)
    decreases s.len() - i,
{
    if i < 0 || i >= s.len() {
        (seq![], s.len() as int)
    } else if s[i] == '*' {
        if i + 1 < s.len() && s[i + 1] == '*' {
            if bold {
                (seq![], i + 2)
            } else {
                let (t, j) = emphasis_text(s, i + 2, bold);
                ("**"@ + t, j)
            }
        } else {
            if !bold {
                (seq![], i + 1)
            } else {
                let (t, j) = emphasis_text(s, i + 1, bold);
                ("*"@ + t, j)
            }
        }
    } else {
        let (t, j) = emphasis_text(s, i + 1, bold);
        (seq![s[i]] + t, j)
    }
}

pub proof fn lemma_emphasis_text_ahead(s: Seq<char>, i: int, bold: bool)
    requires
        0 <= i <= s.len(),
    ensures
        i <= emphasis_text(s, i, bold).1 <= s.len(),
        i < s.len() ==> emphasis_text(s, i, bold).1 > i,
    decreases s.len() - i,
{
    if i < s.len() {
        if s[i] == '*' && i + 1 < s.len() && s[i + 1] == '*' {
            lemma_emphasis_text_ahead(s, i + 2, bold);
        } else {
            lemma_emphasis_text_ahead(s, i + 1, bold);
        }
    }
}

/// Emphasis at `pos`: `**` opens bold text, `*` italic text.
pub open spec fn emphasis_parse(s: Seq<char>, pos: int) -> (Option<ElementView>, int) {
    if !(0 <= pos < s.len()) || s[pos] != '*' {
        (None, pos)
    } else {
        let bold = pos + 1 < s.len() && s[pos + 1] == '*';
        let start = if bold { pos + 2 } else { pos + 1 };
        let (t, j) = emphasis_text(s, start, bold);
        (Some(ElementView::Emphasis((t, bold))), j)
    }
}

/// Reads emphasised text.
pub struct EmphasisParser;

impl EmphasisParser {
    pub fn try_parse(&self, chars: &Vec<char>, pos: usize) -> (res: (Option<Element>, usize))
        requires
            pos <= chars@.len(),
        ensures
            (match res.0 { Some(e) => Some(e@), None => None }, res.1 as int) == emphasis_parse(chars@, pos as int),
    {
        let ghost s = chars@;
        if pos >= chars.len() || chars[pos] != '*' {
            return (None, pos);
        }
        let is_bold = pos + 1 < chars.len() && chars[pos + 1] == '*';
        let mut i = if is_bold { pos + 2 } else { pos + 1 };
        let ghost goal = emphasis_text(s, i as int, is_bold);
        let mut text: Vec<char> = Vec::new();
        loop
            invariant_except_break
                chars@ == s,
                pos < i <= s.len(),
                goal == (text@ + emphasis_text(s, i as int, is_bold).0, emphasis_text(s, i as int, is_bold).1),
            ensures
                goal == (text@, i as int),
            decreases s.len() - i,
        {
            if i >= chars.len() {
                assert(text@ + Seq::<char>::empty() =~= text@);
                break;
            }
            if chars[i] == '*' {
                if i + 1 < chars.len() && chars[i + 1] == '*' {
                    if is_bold {
                        i = i + 2;
                        assert(text@ + Seq::<char>::empty() =~= text@);
                        break;
                    }
                    let ghost r = emphasis_text(s, i + 2, is_bold);
                    text.push('*');
                    text.push('*');
                    proof {
                        reveal_strlit("**");
                    }
                    assert(text@ + r.0 =~= text@.drop_last().drop_last() + ("**"@ + r.0));
                    i = i + 2;
                } else {
                    if !is_bold {
                        i = i + 1;
                        assert(text@ + Seq::<char>::empty() =~= text@);
                        break;
                    }
                    let ghost r = emphasis_text(s, i + 1, is_bold);
                    text.push('*');
                    proof {
                        reveal_strlit("*");
                    }
                    assert(text@ + r.0 =~= text@.drop_last() + ("*"@ + r.0));
                    i = i + 1;
                }
            } else {
                let ghost r = emphasis_text(s, i + 1, is_bold);
                text.push(chars[i]);
                assert(text@ + r.0 =~= text@.drop_last() + (seq![s[i as int]] + r.0));
                i = i + 1;
            }
        }
        let t = string_of(&text);
        (Some(Element::Emphasis(Emphasis::new(t, is_bold))), i)
    }
}

// ---------------------------------------------------------------------------
// The renderer

/// The element at `pos`, trying the readers in turn (heading, list item,
/// code, link, emphasis), each from where the one before it stopped; and
/// where reading goes on.
pub open spec fn parse_at(s: Seq<char>, pos: int) -> (Option<ElementView>, int) {
    let (h, p1) = header_parse(s, pos);
    if h is Some {
        (h, p1)
    } else {
        let (l, p2) = list_parse(s, p1);
        if l is Some {
            (l, p2)
        } else {
            let (c, p3) = code_parse(s, p2);
            if c is Some {
                (c, p3)
            } else {
                let (k, p4) = link_parse(s, p3);
                if k is Some {
                    (k, p4)
                } else {
                    emphasis_parse(s, p4)
                }
            }
        }
    }
}

/// Whether reading at `pos` stays within its limits: a heading's level fits
/// a byte and a fenced block does not run out after a lone backtick.
pub open spec fn step_ok(s: Seq<char>, pos: int) -> bool {
    &&& header_ok(s, pos)
    &&& code_ok(s, list_parse(s, header_parse(s, pos).1).1)
}

pub proof fn lemma_header_parse_ahead(s: Seq<char>, pos: int)
    requires
        0 <= pos <= s.len(),
    ensures
        pos <= header_parse(s, pos).1 <= s.len(),
        header_parse(s, pos).0 is Some ==> header_parse(s, pos).1 > pos,
        header_parse(s, pos).0 is None ==> header_parse(s, pos).1 == pos,
{
    if pos < s.len() && s[pos] == '#' {
        let n = count_hashes(s, pos);
        assert(n >= 1);
        lemma_count_hashes(s, pos);
        lemma_skip_blanks(s, pos + n);
        lemma_until_char_ahead(s, skip_blanks(s, pos + n), '\n');
    }
}

pub proof fn lemma_list_parse_ahead(s: Seq<char>, pos: int)
    requires
        0 <= pos <= s.len(),
    ensures
        pos <= list_parse(s, pos).1 <= s.len(),
        list_parse(s, pos).0 is Some ==> list_parse(s, pos).1 > pos,
{
    if pos < s.len() && s[pos] == '-' && pos + 1 < s.len() && s[pos + 1] == ' ' {
        lemma_item_text_ahead(s, pos + 2, false, false);
    }
}

pub proof fn lemma_code_parse_ahead(s: Seq<char>, pos: int)
    requires
        0 <= pos <= s.len(),
    ensures
        pos <= code_parse(s, pos).1 <= s.len(),
        code_parse(s, pos).0 is Some ==> code_parse(s, pos).1 > pos,
{
    if pos < s.len() && s[pos] == '`' {
        if pos + 1 < s.len() && s[pos + 1] == '`' {
            if pos + 2 < s.len() && s[pos + 2] == '`' {
                lemma_fence_ahead(s, pos + 3);
            }
        } else {
            lemma_until_char_ahead(s, pos + 1, '`');
        }
    }
}

pub proof fn lemma_link_parse_ahead(s: Seq<char>, pos: int)
    requires
        0 <= pos <= s.len(),
    ensures
        pos <= link_parse(s, pos).1 <= s.len(),
        link_parse(s, pos).0 is Some ==> link_parse(s, pos).1 > pos,
{
    if pos < s.len() && s[pos] == '[' {
        lemma_until_char_ahead(s, pos + 1, ']');
        let j = until_char(s, pos + 1, ']').1;
        if 0 <= j < s.len() && s[j] == '(' {
            lemma_until_char_ahead(s, j + 1, ')');
        }
    }
}

pub proof fn lemma_emphasis_parse_ahead(s: Seq<char>, pos: int)
    requires
        0 <= pos <= s.len(),
    ensures
        pos <= emphasis_parse(s, pos).1 <= s.len(),
        emphasis_parse(s, pos).0 is Some ==> emphasis_parse(s, pos).1 > pos,
{
    if pos < s.len() && s[pos] == '*' {
        let bold = pos + 1 < s.len() && s[pos + 1] == '*';
        let start = if bold { pos + 2 } else { pos + 1 };
        lemma_emphasis_text_ahead(s, start, bold);
    }
}

pub proof fn lemma_parse_at_ahead(s: Seq<char>, pos: int)
    requires
        0 <= pos < s.len(),
    ensures
        pos <= parse_at(s, pos).1 <= s.len(),
        parse_at(s, pos).0 is Some ==> parse_at(s, pos).1 > pos,
{
    lemma_header_parse_ahead(s, pos);
    let p1 = header_parse(s, pos).1;
    lemma_list_parse_ahead(s, p1);
    let p2 = list_parse(s, p1).1;
    lemma_code_parse_ahead(s, p2);
    let p3 = code_parse(s, p2).1;
    lemma_link_parse_ahead(s, p3);
    let p4 = link_parse(s, p3).1;
    lemma_emphasis_parse_ahead(s, p4);
}

/// Where reading goes on after the step at `pos`: past the element, or,
/// when no reader found one, one character past where the last reader stopped.
pub open spec fn next_pos(s: Seq<char>, pos: int) -> int {
    let (e, q) = parse_at(s, pos);
    if e is Some {
        q
    } else if q < s.len() {
        q + 1
    } else {
        q
    }
}

/// What the step at `pos` writes: the element, or the character at `pos`
/// as it is.
pub open spec fn step_output(s: Seq<char>, pos: int, p: PaletteView) -> Seq<char> {
    match parse_at(s, pos).0 {
        Some(e) => element_output(e, p),
        None => seq![s[pos]],
    }
}

/// What rendering writes from `pos` on.
pub open spec fn render_output(s: Seq<char>, pos: int, p: PaletteView) -> Seq<char>
    decreases s.len() - pos,
{
    if pos < 0 || pos >= s.len() {
        seq![]
    } else {
        proof {
            lemma_parse_at_ahead(s, pos);
        }
        step_output(s, pos, p) + render_output(s, next_pos(s, pos), p)
    }
}

/// Whether every step of rendering from `pos` on stays within its limits.
pub open spec fn render_ok(s: Seq<char>, pos: int) -> bool
    decreases s.len() - pos,
{
    if pos < 0 || pos >= s.len() {
        true
    } else {
        proof {
            lemma_parse_at_ahead(s, pos);
        }
        step_ok(s, pos) && render_ok(s, next_pos(s, pos))
    }
}

fn read_element(chars: &Vec<char>, pos: usize) -> (res: (Option<Element>, usize))
    requires
        pos < chars@.len(),
        step_ok(chars@, pos as int),
    ensures
        (match res.0 { Some(e) => Some(e@), None => None }, res.1 as int) == parse_at(chars@, pos as int),
{
    let (r1, p1) = HeaderParser.try_parse(chars, pos);
    if r1.is_some() {
        return (r1, p1);
    }
    proof {
        lemma_parse_at_ahead(chars@, pos as int);
    }
    let (r2, p2) = ListItemParser.try_parse(chars, p1);
    if r2.is_some() {
        return (r2, p2);
    }
    let (r3, p3) = CodeBlockParser.try_parse(chars, p2);
    if r3.is_some() {
        return (r3, p3);
    }
    let (r4, p4) = LinkParser.try_parse(chars, p3);
    if r4.is_some() {
        return (r4, p4);
    }
    EmphasisParser.try_parse(chars, p4)
}

/// Whether `c` can start markup: a heading, a list item, code, a link or
/// emphasis.
pub open spec fn is_markup(c: char) -> bool {
    c == '#' || c == '-' || c == '`' || c == '[' || c == '*'
}

proof fn lemma_plain_from(s: Seq<char>, pos: int, p: PaletteView)
    requires
        0 <= pos <= s.len(),
        forall|i: int| 0 <= i < s.len() ==> !is_markup(#[trigger] s[i]),
    ensures
        render_output(s, pos, p) == s.skip(pos),
        render_ok(s, pos),
    decreases s.len() - pos,
{
    if pos < s.len() {
        assert(!is_markup(s[pos]));
        assert(parse_at(s, pos) == (None::<ElementView>, pos));
        assert(count_hashes(s, pos) == 0);
        lemma_plain_from(s, pos + 1, p);
        assert(s.skip(pos) =~= seq![s[pos]] + s.skip(pos + 1));
    } else {
        assert(s.skip(pos) =~= Seq::<char>::empty());
    }
}

/// Text without markup characters is rendered as it is.
pub proof fn law_plain_text_unchanged(s: Seq<char>, p: PaletteView)
    requires
        forall|i: int| 0 <= i < s.len() ==> !is_markup(#[trigger] s[i]),
    ensures
        render_ok(s, 0),
        render_output(s, 0, p) == s,
{
    lemma_plain_from(s, 0, p);
    assert(s.skip(0) =~= s);
}

/// Renders markdown for the terminal, adding to what it rendered before.
pub struct MarkdownRenderer {
    writer: StyleWriter,
}

impl MarkdownRenderer {
    /// All it has rendered so far.
    pub closed spec fn text(&self) -> Seq<char> {
        self.writer.text()
    }

    /// The colour sequences it writes.
    pub closed spec fn colors(&self) -> PaletteView {
        self.writer.colors()
    }

    pub fn new() -> (r: Self)
        ensures
            r.text() == Seq::<char>::empty(),
            palette_ok(r.colors()),
    {
        MarkdownRenderer { writer: StyleWriter::new() }
    }

    /// Renders `markdown` after what was rendered before, and gives all that
    /// was rendered.
    pub fn render(&mut self, markdown: &str) -> (out: String)
        requires
            render_ok(markdown@, 0),
        ensures
            final(self).colors() == old(self).colors(),
            final(self).text() == old(self).text() + render_output(markdown@, 0, old(self).colors()),
            out@ == final(self).text(),
    {
        let chars = chars_of(markdown);
        let ghost s = markdown@;
        let ghost p = self.writer.colors();
        let ghost t0 = self.writer.text();
        let mut pos: usize = 0;
        while pos < chars.len()
            invariant
                chars@ == s,
                pos <= s.len(),
                self.writer.colors() == p,
                render_ok(s, pos as int),
                t0 + render_output(s, 0, p) == self.writer.text() + render_output(s, pos as int, p),
            decreases s.len() - pos,
        {
            let ch = chars[pos];
            let ghost old_pos = pos;
            proof {
                lemma_parse_at_ahead(s, pos as int);
            }
            let (elem, after) = read_element(&chars, pos);
            let ghost before = self.writer.text();
            match elem {
                Some(e) => {
                    e.render(&mut self.writer);
                    pos = after;
                },
                None => {
                    let mut t = String::new();
                    push_char(&mut t, ch);
                    self.writer.write_plain(t.as_str());
                    pos = if after < chars.len() { after + 1 } else { after };
                },
            }
            proof {
                assert(render_output(s, old_pos as int, p) == step_output(s, old_pos as int, p) + render_output(s, pos as int, p));
                assert(self.writer.text() == before + step_output(s, old_pos as int, p));
                assert(self.writer.text() + render_output(s, pos as int, p) =~= before + render_output(s, old_pos as int, p));
            }
        }
        self.writer.clone().into_string()
    }
}

impl Default for MarkdownRenderer {
    fn default() -> (r: Self)
        ensures
            r.text() == Seq::<char>::empty(),
            palette_ok(r.colors()),
    {
        Self::new()
    }
}

} // verus!
