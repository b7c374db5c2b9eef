//! A one-pass markdown renderer for the terminal: headings, list items,
//! bold and italic text, code and links, written in colour as they are read.

use vstd::prelude::*;

use crate::markdown::parser::{count_hashes, lemma_count_hashes, lemma_skip_blanks, lemma_until_char_ahead, skip_blanks, until_char};
use crate::markdown::style::{fg, Palette, PaletteView, TextColor, palette_ok};
use crate::text::{chars_of, push_char, push_chars, to_upper, trim, trim_chars, uppercase, string_of};

verus! {

// ---------------------------------------------------------------------------
// Scanning

/// Whether a `c` is found from `i` on.
pub open spec fn found_char(s: Seq<char>, i: int, c: char) -> bool {
    exists|k: int| 0 <= i <= k < s.len() && s[k] == c
}

pub proof fn lemma_until_char_found(s: Seq<char>, i: int, c: char)
    requires
        0 <= i <= s.len(),
    ensures
        found_char(s, i, c) ==> 0 < until_char(s, i, c).1 <= s.len() && s[until_char(s, i, c).1 - 1] == c,
        !found_char(s, i, c) ==> until_char(s, i, c).1 == s.len(),
    decreases s.len() - i,
{
    if i < s.len() {
        lemma_until_char_found(s, i + 1, c);
        if s[i] != c {
            if found_char(s, i, c) {
                let k = choose|k: int| 0 <= i <= k < s.len() && s[k] == c;
                assert(k != i);
                assert(found_char(s, i + 1, c));
            }
            if found_char(s, i + 1, c) {
                let k = choose|k: int| 0 <= i + 1 <= k < s.len() && s[k] == c;
                assert(found_char(s, i, c));
            }
        }
    }
}

fn scan_to(chars: &Vec<char>, start: usize, c: char) -> (res: (Vec<char>, usize, bool))
    requires
        start <= chars@.len(),
    ensures
        (res.0@, res.1 as int) == until_char(chars@, start as int, c),
        res.2 == found_char(chars@, start as int, c),
{
    let ghost s = chars@;
    let mut text: Vec<char> = Vec::new();
    let mut j = start;
    while j < chars.len() && chars[j] != c
        invariant
            start <= j <= s.len(),
            chars@ == s,
            until_char(s, start as int, c) == (text@ + until_char(s, j as int, c).0, until_char(s, j as int, c).1),
            forall|k: int| start <= k < j ==> s[k] != c,
        decreases s.len() - j,
    {
        text.push(chars[j]);
        j = j + 1;
        assert(text@ + until_char(s, j as int, c).0 =~= text@.drop_last() + (seq![s[j - 1]] + until_char(s, j as int, c).0));
    }
    assert(text@ + Seq::<char>::empty() =~= text@);
    if j < chars.len() {
        assert(found_char(s, start as int, c));
        (text, j + 1, true)
    } else {
        assert(!found_char(s, start as int, c));
        (text, j, false)
    }
}

/// Text up to `**` (passed over): a lone `*` is dropped and the character
/// after it kept; and where reading goes on.
pub open spec fn double_star_text(s: Seq<char>, i: int) -> (Seq<char>, int)
    decreases s.len() - i,
{
    if i < 0 || i >= s.len() {
        (seq![], s.len() as int)
    } else if s[i] == '*' {
        if i + 1 < s.len() && s[i + 1] == '*' {
            (seq![], i + 2)
        } else if i + 1 < s.len() {
            let (t, j) = double_star_text(s, i + 2);
            (seq![s[i + 1]] + t, j)
        } else {
            (seq![], s.len() as int)
        }
    } else {
        let (t, j) = double_star_text(s, i + 1);
        (seq![s[i]] + t, j)
    }
}

/// Whether reading up to `**` from `i` never meets a lone `*` as the last
/// character (the reader would then take a character that is not there).
pub open spec fn double_star_ok(s: Seq<char>, i: int) -> bool
    decreases s.len() - i,
{
    if i < 0 || i >= s.len() {
        true
    } else if s[i] == '*' {
        if i + 1 < s.len() && s[i + 1] == '*' {
            true
        } else if i + 1 < s.len() {
            double_star_ok(s, i + 2)
        } else {
            false
        }
    } else {
        double_star_ok(s, i + 1)
    }
}

pub proof fn lemma_double_star_ahead(s: Seq<char>, i: int)
    requires
        0 <= i <= s.len(),
    ensures
        i <= double_star_text(s, i).1 <= s.len(),
        i < s.len() ==> double_star_text(s, i).1 > i,
    decreases s.len() - i,
{
    if i < s.len() {
        if s[i] == '*' {
            if !(i + 1 < s.len() && s[i + 1] == '*') && i + 1 < s.len() {
                lemma_double_star_ahead(s, i + 2);
            }
        } else {
            lemma_double_star_ahead(s, i + 1);
        }
    }
}

fn scan_double_star(chars: &Vec<char>, start: usize) -> (res: (Vec<char>, usize))
    requires
        start <= chars@.len(),
        double_star_ok(chars@, start as int),
    ensures
        (res.0@, res.1 as int) == double_star_text(chars@, start as int),
{
    let ghost s = chars@;
    let ghost goal = double_star_text(s, start as int);
    let mut text: Vec<char> = Vec::new();
    let mut i = start;
    loop
        invariant_except_break
            chars@ == s,
            start <= i <= s.len(),
            double_star_ok(s, i as int),
            goal == (text@ + double_star_text(s, i as int).0, double_star_text(s, i as int).1),
        ensures
            goal == (text@, i as int),
        decreases s.len() - i,
    {
        if i >= chars.len() {
            assert(text@ + Seq::<char>::empty() =~= text@);
            break;
        }
        if chars[i] == '*' {
            if i + 1 < chars.len() && chars[i + 1] == '*' {
                i = i + 2;
                assert(text@ + Seq::<char>::empty() =~= text@);
                break;
            }
            let ghost r = double_star_text(s, i + 2);
            text.push(chars[i + 1]);
            assert(text@ + r.0 =~= text@.drop_last() + (seq![s[i + 1]] + r.0));
            i = i + 2;
        } else {
            let ghost r = double_star_text(s, i + 1);
            text.push(chars[i]);
            assert(text@ + r.0 =~= text@.drop_last() + (seq![s[i as int]] + r.0));
            i = i + 1;
        }
    }
    (text, i)
}

// ---------------------------------------------------------------------------
// Pieces of output

/// `t` in colour `c`, or nothing when `t` is empty.
pub open spec fn styled(p: PaletteView, c: TextColor, t: Seq<char>) -> Seq<char> {
    if t.len() > 0 {
        fg(p, c) + t + p.reset
    } else {
        seq![]
    }
}

/// Emphasis read from `i`, just after an opening `*`: bold (green) when a
/// second `*` follows, else italic (cyan); either runs up to `**`.
pub open spec fn emphasis_out(s: Seq<char>, i: int, p: PaletteView) -> (Seq<char>, int) {
    if 0 <= i < s.len() && s[i] == '*' {
        let (t, j) = double_star_text(s, i + 1);
        (fg(p, TextColor::Green) + styled(p, TextColor::Green, t) + p.reset, j)
    } else {
        let (t, j) = double_star_text(s, i);
        (fg(p, TextColor::Cyan) + styled(p, TextColor::Cyan, t) + p.reset, j)
    }
}

pub open spec fn emphasis_ok(s: Seq<char>, i: int) -> bool {
    if 0 <= i < s.len() && s[i] == '*' {
        double_star_ok(s, i + 1)
    } else {
        double_star_ok(s, i)
    }
}

pub proof fn lemma_emphasis_out_ahead(s: Seq<char>, i: int, p: PaletteView)
    requires
        0 <= i <= s.len(),
    ensures
        i <= emphasis_out(s, i, p).1 <= s.len(),
{
    if i < s.len() && s[i] == '*' {
        lemma_double_star_ahead(s, i + 1);
    } else {
        lemma_double_star_ahead(s, i);
    }
}

/// A link read from `i`, just after `[`: with `](` following its text, the
/// text in blue and the address passed over; otherwise the text between
/// brackets as it is.
pub open spec fn link_out(s: Seq<char>, i: int, p: PaletteView) -> (Seq<char>, int) {
    let (t, j) = until_char(s, i, ']');
    if found_char(s, i, ']') && 0 <= j < s.len() && s[j] == '(' {
        (fg(p, TextColor::Blue) + t + p.reset, until_char(s, j + 1, ')').1)
    } else {
        ("["@ + t + "]"@, j)
    }
}

pub proof fn lemma_link_out_ahead(s: Seq<char>, i: int, p: PaletteView)
    requires
        0 <= i <= s.len(),
    ensures
        i <= link_out(s, i, p).1 <= s.len(),
{
    lemma_until_char_ahead(s, i, ']');
    let j = until_char(s, i, ']').1;
    if 0 <= j < s.len() {
        lemma_until_char_ahead(s, j + 1, ')');
    }
}

/// The content of a fenced block from `i`: a backtick followed by a second
/// one passes over both and closes the block at a third; otherwise
/// characters are taken as they come.
pub open spec fn fence_text(s: Seq<char>, i: int) -> (Seq<char>, int)
    decreases s.len() - i,
{
    if i < 0 || i >= s.len() {
        (seq![], s.len() as int)
    } else if s[i] == '`' && i + 1 < s.len() && s[i + 1] == '`' {
        if i + 2 < s.len() && s[i + 2] == '`' {
            (seq![], i + 3)
        } else {
            let (t, j) = fence_text(s, i + 2);
            (seq![s[i]] + t, j)
        }
    } else {
        let (t, j) = fence_text(s, i + 1);
        (seq![s[i]] + t, j)
    }
}

pub proof fn lemma_fence_text_ahead(s: Seq<char>, i: int)
    requires
        0 <= i <= s.len(),
    ensures
        i <= fence_text(s, i).1 <= s.len(),
    decreases s.len() - i,
{
    if i < s.len() {
        if s[i] == '`' && i + 1 < s.len() && s[i + 1] == '`' {
            if !(i + 2 < s.len() && s[i + 2] == '`') {
                lemma_fence_text_ahead(s, i + 2);
            }
        } else {
            lemma_fence_text_ahead(s, i + 1);
        }
    }
}

/// Code read from `i`, just after a backtick: two more open a fenced block
/// (trimmed, in yellow, on lines of its own, and a line break is then
/// counted as written); otherwise a span up to the next backtick in green
/// (a second backtick is passed over first).
pub open spec fn code_out(s: Seq<char>, i: int, p: PaletteView) -> (Seq<char>, int, bool) {
    if 0 <= i && i + 1 < s.len() && s[i] == '`' && s[i + 1] == '`' {
        let (t, j) = fence_text(s, i + 2);
        ("\n"@ + fg(p, TextColor::Yellow) + trim(t) + p.reset + "\n"@, j, true)
    } else {
        let k = if 0 <= i < s.len() && s[i] == '`' { i + 1 } else { i };
        let (t, j) = until_char(s, k, '`');
        (fg(p, TextColor::Green) + t + p.reset, j, false)
    }
}

pub proof fn lemma_code_out_ahead(s: Seq<char>, i: int, p: PaletteView)
    requires
        0 <= i <= s.len(),
    ensures
        i <= code_out(s, i, p).1 <= s.len(),
{
    if i + 1 < s.len() && s[i] == '`' && s[i + 1] == '`' {
        lemma_fence_text_ahead(s, i + 2);
    } else {
        let k = if i < s.len() && s[i] == '`' { i + 1 } else { i };
        lemma_until_char_ahead(s, k, '`');
    }
}

// ---------------------------------------------------------------------------
// Headings

/// Bold text in a heading from `j`, up to `**`: a lone `*` is kept and the
/// character after it passed over.
pub open spec fn heading_bold(s: Seq<char>, j: int) -> (Seq<char>, int)
    decreases s.len() - j,
{
    if j < 0 || j >= s.len() {
        (seq![], s.len() as int)
    } else if s[j] == '*' {
        if j + 1 < s.len() && s[j + 1] == '*' {
            (seq![], j + 2)
        } else {
            let next = if j + 1 < s.len() { j + 2 } else { j + 1 };
            let (t, k) = heading_bold(s, next);
            (seq!['*'] + t, k)
        }
    } else {
        let (t, k) = heading_bold(s, j + 1);
        (seq![s[j]] + t, k)
    }
}

pub proof fn lemma_heading_bold_ahead(s: Seq<char>, j: int)
    requires
        0 <= j <= s.len(),
    ensures
        j <= heading_bold(s, j).1 <= s.len(),
        j < s.len() ==> heading_bold(s, j).1 > j,
    decreases s.len() - j,
{
    if j < s.len() {
        if s[j] == '*' {
            if !(j + 1 < s.len() && s[j + 1] == '*') {
                let next = if j + 1 < s.len() { j + 2 } else { j + 1 };
                lemma_heading_bold_ahead(s, next);
            }
        } else {
            lemma_heading_bold_ahead(s, j + 1);
        }
    }
}

/// A link in a heading from `j`, just after `[`: its text when a `]` closes
/// it (an address after it is passed over), nothing otherwise.
pub open spec fn heading_link(s: Seq<char>, j: int) -> (Seq<char>, int) {
    let (t, k) = until_char(s, j, ']');
    if found_char(s, j, ']') {
        if 0 <= k < s.len() && s[k] == '(' {
            (t, until_char(s, k, ')').1)
        } else {
            (t, k)
        }
    } else {
        (seq![], k)
    }
}

pub proof fn lemma_heading_link_ahead(s: Seq<char>, j: int)
    requires
        0 <= j <= s.len(),
    ensures
        j <= heading_link(s, j).1 <= s.len(),
{
    lemma_until_char_ahead(s, j, ']');
    let k = until_char(s, j, ']').1;
    if 0 <= k < s.len() {
        lemma_until_char_ahead(s, k, ')');
    }
}

/// The text of a heading from `i` to the end of its line: bold, italic and
/// link markup taken out, link addresses dropped.
pub open spec fn heading_text(s: Seq<char>, i: int) -> (Seq<char>, int)
    decreases s.len() - i,
{
    if i < 0 || i >= s.len() {
        (seq![], s.len() as int)
    } else if s[i] == '\n' {
        (seq![], i + 1)
    } else if s[i] == '*' {
        if i + 1 < s.len() && s[i + 1] == '*' {
            let (b, j) = heading_bold(s, i + 2);
            proof {
                lemma_heading_bold_ahead(s, i + 2);
            }
            let (t, k) = heading_text(s, j);
            (b + t, k)
        } else {
            let (b, j) = until_char(s, i + 1, '*');
            proof {
                lemma_until_char_ahead(s, i + 1, '*');
            }
            let (t, k) = heading_text(s, j);
            (b + t, k)
        }
    } else if s[i] == '[' {
        let (b, j) = heading_link(s, i + 1);
        proof {
            lemma_heading_link_ahead(s, i + 1);
        }
        let (t, k) = heading_text(s, j);
        (b + t, k)
    } else {
        let (t, k) = heading_text(s, i + 1);
        (seq![s[i]] + t, k)
    }
}

pub proof fn lemma_heading_text_ahead(s: Seq<char>, i: int)
    requires
        0 <= i <= s.len(),
    ensures
        i <= heading_text(s, i).1 <= s.len(),
    decreases s.len() - i,
{
    if i < s.len() && s[i] != '\n' {
        if s[i] == '*' {
            if i + 1 < s.len() && s[i + 1] == '*' {
                lemma_heading_bold_ahead(s, i + 2);
                lemma_heading_text_ahead(s, heading_bold(s, i + 2).1);
            } else {
                lemma_until_char_ahead(s, i + 1, '*');
                lemma_heading_text_ahead(s, until_char(s, i + 1, '*').1);
            }
        } else if s[i] == '[' {
            lemma_heading_link_ahead(s, i + 1);
            lemma_heading_text_ahead(s, heading_link(s, i + 1).1);
        } else {
            lemma_heading_text_ahead(s, i + 1);
        }
    }
}

/// The blanks in front of a heading with `n` more `#` after the first.
pub open spec fn heading_indent(n: int) -> Seq<char> {
    if n == 2 {
        "  "@
    } else if n == 3 {
        "    "@
    } else if n == 4 {
        "      "@
    } else if n == 5 {
        "        "@
    } else if n == 6 {
        "          "@
    } else {
        ""@
    }
}

/// A heading read from `i`, just after its first `#`: the further `#` are
/// counted, and the text of the line written in capitals, in magenta, after
/// the blanks for that count.
pub open spec fn heading_out(s: Seq<char>, i: int, p: PaletteView) -> (Seq<char>, int) {
    let n = count_hashes(s, i);
    let (t, j) = heading_text(s, skip_blanks(s, i + n));
    let line = if n == 1 { uppercase(trim(t)) } else { heading_indent(n as int) + uppercase(trim(t)) };
    (fg(p, TextColor::Magenta) + line + "\n"@ + p.reset, j)
}

pub proof fn lemma_heading_out_ahead(s: Seq<char>, i: int, p: PaletteView)
    requires
        0 <= i <= s.len(),
    ensures
        i <= heading_out(s, i, p).1 <= s.len(),
{
    let n = count_hashes(s, i);
    lemma_count_hashes(s, i);
    lemma_skip_blanks(s, i + n);
    lemma_heading_text_ahead(s, skip_blanks(s, i + n));
}

// ---------------------------------------------------------------------------
// List items

/// A list item from `i` to the end of its line, with `buf` plain text read
/// but not yet written: emphasis and links are written as they come, plain
/// text before them, and a line break at the end.
pub open spec fn item_out(s: Seq<char>, i: int, buf: Seq<char>, p: PaletteView) -> (Seq<char>, int)
    decreases s.len() - i,
{
    if i < 0 || i >= s.len() {
        (buf + "\n"@, s.len() as int)
    } else if s[i] == '\n' {
        (buf + "\n"@, i + 1)
    } else if s[i] == '*' {
        let (e, j) = emphasis_out(s, i + 1, p);
        proof {
            lemma_emphasis_out_ahead(s, i + 1, p);
        }
        let (rest, k) = item_out(s, j, seq![], p);
        (buf + e + rest, k)
    } else if s[i] == '[' {
        let (l, j) = link_out(s, i + 1, p);
        proof {
            lemma_link_out_ahead(s, i + 1, p);
        }
        let (rest, k) = item_out(s, j, seq![], p);
        (buf + l + rest, k)
    } else {
        item_out(s, i + 1, buf.push(s[i]), p)
    }
}

/// Whether the emphasis in a list item from `i` stays within the characters.
pub open spec fn item_ok(s: Seq<char>, i: int, p: PaletteView) -> bool
    decreases s.len() - i,
{
    if i < 0 || i >= s.len() || s[i] == '\n' {
        true
    } else if s[i] == '*' {
        proof {
            lemma_emphasis_out_ahead(s, i + 1, p);
        }
        emphasis_ok(s, i + 1) && item_ok(s, emphasis_out(s, i + 1, p).1, p)
    } else if s[i] == '[' {
        proof {
            lemma_link_out_ahead(s, i + 1, p);
        }
        item_ok(s, link_out(s, i + 1, p).1, p)
    } else {
        item_ok(s, i + 1, p)
    }
}

pub proof fn lemma_item_out_ahead(s: Seq<char>, i: int, buf: Seq<char>, p: PaletteView)
    requires
        0 <= i <= s.len(),
    ensures
        i <= item_out(s, i, buf, p).1 <= s.len(),
    decreases s.len() - i,
{
    if i < s.len() && s[i] != '\n' {
        if s[i] == '*' {
            lemma_emphasis_out_ahead(s, i + 1, p);
            lemma_item_out_ahead(s, emphasis_out(s, i + 1, p).1, seq![], p);
        } else if s[i] == '[' {
            lemma_link_out_ahead(s, i + 1, p);
            lemma_item_out_ahead(s, link_out(s, i + 1, p).1, seq![], p);
        } else {
            lemma_item_out_ahead(s, i + 1, buf.push(s[i]), p);
        }
    }
}

// ---------------------------------------------------------------------------
// Rendering

/// One step of rendering at `pos`, where a line starts when `line_start`:
/// what it writes, where reading goes on, and whether a line then starts.
pub open spec fn step_out(s: Seq<char>, pos: int, line_start: bool, p: PaletteView) -> (Seq<char>, int, bool) {
    let c = s[pos];
    let i = pos + 1;
    if c == '#' {
        let (h, j) = heading_out(s, i, p);
        (h, j, true)
    } else if (c == '-' || c == '*' || c == '+') && line_start {
        let k = skip_blanks(s, i);
        if k > i || c != '*' {
            let (t, j) = item_out(s, k, seq![], p);
            ("• "@ + (if c == '+' { "Third with "@ } else { seq![] }) + t, j, true)
        } else {
            let (e, j) = emphasis_out(s, k, p);
            (e, j, false)
        }
    } else if c == '*' {
        let (e, j) = emphasis_out(s, i, p);
        (e, j, false)
    } else if c == '`' {
        code_out(s, i, p)
    } else if c == '[' {
        let (l, j) = link_out(s, i, p);
        (l, j, false)
    } else if c == '\n' {
        ("\n"@, i, true)
    } else {
        (seq![c], i, false)
    }
}

/// Whether the step at `pos` stays within the characters.
pub open spec fn step_ok(s: Seq<char>, pos: int, line_start: bool, p: PaletteView) -> bool {
    let c = s[pos];
    let i = pos + 1;
    if c == '#' {
        true
    } else if (c == '-' || c == '*' || c == '+') && line_start {
        let k = skip_blanks(s, i);
        if k > i || c != '*' {
            item_ok(s, k, p)
        } else {
            emphasis_ok(s, k)
        }
    } else if c == '*' {
        emphasis_ok(s, i)
    } else {
        true
    }
}

pub proof fn lemma_step_ahead(s: Seq<char>, pos: int, line_start: bool, p: PaletteView)
    requires
        0 <= pos < s.len(),
    ensures
        pos < step_out(s, pos, line_start, p).1 <= s.len(),
{
    let i = pos + 1;
    lemma_heading_out_ahead(s, i, p);
    lemma_skip_blanks(s, i);
    let k = skip_blanks(s, i);
    lemma_item_out_ahead(s, k, seq![], p);
    lemma_emphasis_out_ahead(s, k, p);
    lemma_emphasis_out_ahead(s, i, p);
    lemma_code_out_ahead(s, i, p);
    lemma_link_out_ahead(s, i, p);
}

/// What rendering writes from `pos` on.
pub open spec fn render_out(s: Seq<char>, pos: int, line_start: bool, p: PaletteView) -> Seq<char>
    decreases s.len() - pos,
{
    if pos < 0 || pos >= s.len() {
        seq![]
    } else {
        let (o, j, ls) = step_out(s, pos, line_start, p);
        proof {
            lemma_step_ahead(s, pos, line_start, p);
        }
        o + render_out(s, j, ls, p)
    }
}

/// Whether every step of rendering from `pos` on stays within the characters.
pub open spec fn render_ok(s: Seq<char>, pos: int, line_start: bool, p: PaletteView) -> bool
    decreases s.len() - pos,
{
    if pos < 0 || pos >= s.len() {
        true
    } else {
        let (o, j, ls) = step_out(s, pos, line_start, p);
        proof {
            lemma_step_ahead(s, pos, line_start, p);
        }
        step_ok(s, pos, line_start, p) && render_ok(s, j, ls, p)
    }
}

/// Whether `c` can start markup for this renderer.
pub open spec fn starts_markup(c: char) -> bool {
    c == '#' || c == '-' || c == '*' || c == '+' || c == '`' || c == '['
}

proof fn lemma_plain_render_from(s: Seq<char>, pos: int, line_start: bool, p: PaletteView)
    requires
        0 <= pos <= s.len(),
        forall|i: int| 0 <= i < s.len() ==> !starts_markup(#[trigger] s[i]),
    ensures
        render_out(s, pos, line_start, p) == s.skip(pos),
        render_ok(s, pos, line_start, p),
    decreases s.len() - pos,
{
    if pos < s.len() {
        assert(!starts_markup(s[pos]));
        reveal_strlit("\n");
        let st = step_out(s, pos, line_start, p);
        assert(st.0 == seq![s[pos]]);
        assert(st.1 == pos + 1);
        lemma_plain_render_from(s, pos + 1, st.2, p);
        assert(s.skip(pos) =~= seq![s[pos]] + s.skip(pos + 1));
    } else {
        assert(s.skip(pos) =~= Seq::<char>::empty());
    }
}

/// Text without markup characters is rendered as it is, line breaks
/// included.
pub proof fn law_plain_text_unchanged(s: Seq<char>, p: PaletteView)
    requires
        forall|i: int| 0 <= i < s.len() ==> !starts_markup(#[trigger] s[i]),
    ensures
        render_ok(s, 0, true, p),
        render_out(s, 0, true, p) == s,
{
    lemma_plain_render_from(s, 0, true, p);
    assert(s.skip(0) =~= s);
}

fn scan_heading_bold(chars: &Vec<char>, start: usize) -> (res: (Vec<char>, usize))
    requires
        start <= chars@.len(),
    ensures
        (res.0@, res.1 as int) == heading_bold(chars@, start as int),
{
    let ghost s = chars@;
    let ghost goal = heading_bold(s, start as int);
    let mut text: Vec<char> = Vec::new();
    let mut j = start;
    loop
        invariant_except_break
            chars@ == s,
            start <= j <= s.len(),
            goal == (text@ + heading_bold(s, j as int).0, heading_bold(s, j as int).1),
        ensures
            goal == (text@, j as int),
        decreases s.len() - j,
    {
        if j >= chars.len() {
            assert(text@ + Seq::<char>::empty() =~= text@);
            break;
        }
        let ch = chars[j];
        if ch == '*' {
            if j + 1 < chars.len() && chars[j + 1] == '*' {
                j = j + 2;
                assert(text@ + Seq::<char>::empty() =~= text@);
                break;
            }
            let next = if j + 1 < chars.len() { j + 2 } else { j + 1 };
            let ghost r = heading_bold(s, next as int);
            text.push('*');
            assert(text@ + r.0 =~= text@.drop_last() + (seq!['*'] + r.0));
            j = next;
        } else {
            let ghost r = heading_bold(s, j + 1);
            text.push(ch);
            assert(text@ + r.0 =~= text@.drop_last() + (seq![ch] + r.0));
            j = j + 1;
        }
    }
    (text, j)
}

fn scan_heading_text(chars: &Vec<char>, start: usize) -> (res: (Vec<char>, usize))
    requires
        start <= chars@.len(),
    ensures
        (res.0@, res.1 as int) == heading_text(chars@, start as int),
{
    let ghost s = chars@;
    let ghost goal = heading_text(s, start as int);
    let mut text: Vec<char> = Vec::new();
    let mut i = start;
    loop
        invariant_except_break
            chars@ == s,
            start <= i <= s.len(),
            goal == (text@ + heading_text(s, i as int).0, heading_text(s, i as int).1),
        ensures
            goal == (text@, i as int),
        decreases s.len() - i,
    {
        if i >= chars.len() {
            assert(text@ + Seq::<char>::empty() =~= text@);
            break;
        }
        let c = chars[i];
        if c == '\n' {
            i = i + 1;
            assert(text@ + Seq::<char>::empty() =~= text@);
            break;
        }
        let ghost t0 = text@;
        if c == '*' {
            if i + 1 < chars.len() && chars[i + 1] == '*' {
                let (b, j) = scan_heading_bold(chars, i + 2);
                proof {
                    lemma_heading_bold_ahead(s, i + 2);
                }
                push_all(&mut text, &b);
                assert(t0 + (b@ + heading_text(s, j as int).0) =~= text@ + heading_text(s, j as int).0);
                i = j;
            } else {
                let (b, j, _) = scan_to(chars, i + 1, '*');
                proof {
                    lemma_until_char_ahead(s, i + 1, '*');
                }
                push_all(&mut text, &b);
                assert(t0 + (b@ + heading_text(s, j as int).0) =~= text@ + heading_text(s, j as int).0);
                i = j;
            }
        } else if c == '[' {
            let (lt, k, found) = scan_to(chars, i + 1, ']');
            proof {
                lemma_until_char_ahead(s, i + 1, ']');
            }
            let mut j = k;
            if found {
                if k < chars.len() && chars[k] == '(' {
                    let (_, e, _) = scan_to(chars, k, ')');
                    proof {
                        lemma_until_char_ahead(s, k as int, ')');
                    }
                    j = e;
                }
                push_all(&mut text, &lt);
                assert(t0 + (lt@ + heading_text(s, j as int).0) =~= text@ + heading_text(s, j as int).0);
            } else {
                assert(t0 + (Seq::<char>::empty() + heading_text(s, j as int).0) =~= text@ + heading_text(s, j as int).0);
            }
            i = j;
        } else {
            let ghost r = heading_text(s, i + 1);
            text.push(c);
            assert(text@ + r.0 =~= t0 + (seq![c] + r.0));
            i = i + 1;
        }
    }
    (text, i)
}

/// Appends the characters of `v`.
fn push_all(dst: &mut Vec<char>, v: &Vec<char>)
    ensures
        final(dst)@ == old(dst)@ + v@,
{
    let mut i: usize = 0;
    while i < v.len()
        invariant
            i <= v@.len(),
            dst@ == old(dst)@ + v@.take(i as int),
        decreases v@.len() - i,
    {
        dst.push(v[i]);
        i = i + 1;
        assert(dst@ =~= old(dst)@ + v@.take(i as int));
    }
    assert(v@.take(v@.len() as int) =~= v@);
}

fn scan_fence(chars: &Vec<char>, start: usize) -> (res: (Vec<char>, usize))
    requires
        start <= chars@.len(),
    ensures
        (res.0@, res.1 as int) == fence_text(chars@, start as int),
{
    let ghost s = chars@;
    let ghost goal = fence_text(s, start as int);
    let mut text: Vec<char> = Vec::new();
    let mut i = start;
    loop
        invariant_except_break
            chars@ == s,
            start <= i <= s.len(),
            goal == (text@ + fence_text(s, i as int).0, fence_text(s, i as int).1),
        ensures
            goal == (text@, i as int),
        decreases s.len() - i,
    {
        if i >= chars.len() {
            assert(text@ + Seq::<char>::empty() =~= text@);
            break;
        }
        let c = chars[i];
        if c == '`' && i + 1 < chars.len() && chars[i + 1] == '`' {
            if i + 2 < chars.len() && chars[i + 2] == '`' {
                i = i + 3;
                assert(text@ + Seq::<char>::empty() =~= text@);
                break;
            }
            let ghost r = fence_text(s, i + 2);
            text.push(c);
            assert(text@ + r.0 =~= text@.drop_last() + (seq![c] + r.0));
            i = i + 2;
        } else {
            let ghost r = fence_text(s, i + 1);
            text.push(c);
            assert(text@ + r.0 =~= text@.drop_last() + (seq![c] + r.0));
            i = i + 1;
        }
    }
    (text, i)
}

/// Renders markdown for the terminal in one pass.
pub struct MarkdownRenderer {
    output: String,
    palette: Palette,
}

impl MarkdownRenderer {
    /// What was written by the last rendering.
    pub closed spec fn text(&self) -> Seq<char> {
        self.output@
    }

    /// The colour sequences it writes.
    pub closed spec fn colors(&self) -> PaletteView {
        self.palette@
    }

    pub fn new() -> (r: Self)
        ensures
            r.text() == Seq::<char>::empty(),
            palette_ok(r.colors()),
    {
        MarkdownRenderer { output: String::new(), palette: Palette::new() }
    }

    fn write(&mut self, t: &str)
        ensures
            final(self).colors() == old(self).colors(),
            final(self).text() == old(self).text() + t@,
    {
        self.output.append(t);
    }

    fn write_color(&mut self, c: TextColor)
        ensures
            final(self).colors() == old(self).colors(),
            final(self).text() == old(self).text() + fg(old(self).colors(), c),
    {
        let mut code = String::new();
        code.append(self.palette.code(c));
        self.output.append(code.as_str());
    }

    fn write_reset(&mut self)
        ensures
            final(self).colors() == old(self).colors(),
            final(self).text() == old(self).text() + old(self).colors().reset,
    {
        let mut code = String::new();
        code.append(self.palette.reset());
        self.output.append(code.as_str());
    }

    fn write_chars(&mut self, v: &Vec<char>)
        ensures
            final(self).colors() == old(self).colors(),
            final(self).text() == old(self).text() + v@,
    {
        push_chars(&mut self.output, v);
    }

    /// Writes the heading that starts just before `pos` (its first `#` read).
    fn parse_header(&mut self, chars: &Vec<char>, pos: usize) -> (next: usize)
        requires
            pos <= chars@.len(),
        ensures
            final(self).colors() == old(self).colors(),
            final(self).text() == old(self).text() + heading_out(chars@, pos as int, old(self).colors()).0,
            next == heading_out(chars@, pos as int, old(self).colors()).1,
    {
        let ghost s = chars@;
        let mut header_level: usize = 0;
        let mut i = pos;
        proof {
            lemma_count_hashes(s, pos as int);
        }
        while i < chars.len() && chars[i] == '#'
            invariant
                chars@ == s,
                pos <= i <= s.len(),
                header_level == i - pos,
                count_hashes(s, pos as int) == (i - pos) + count_hashes(s, i as int),
            decreases s.len() - i,
        {
            header_level = header_level + 1;
            i = i + 1;
        }
        let ghost after = i;
        while i < chars.len() && chars[i] == ' '
            invariant
                chars@ == s,
                after <= i <= s.len(),
                skip_blanks(s, after as int) == skip_blanks(s, i as int),
            decreases s.len() - i,
        {
            i = i + 1;
        }
        let (text, next) = scan_heading_text(chars, i);
        let trimmed = string_of(&trim_chars(&text));
        let upper = to_upper(trimmed.as_str());
        let indentation = if header_level == 2 {
            "  "
        } else if header_level == 3 {
            "    "
        } else if header_level == 4 {
            "      "
        } else if header_level == 5 {
            "        "
        } else if header_level == 6 {
            "          "
        } else {
            ""
        };
        proof {
            reveal_strlit("");
            reveal_strlit("  ");
            reveal_strlit("    ");
            reveal_strlit("      ");
            reveal_strlit("        ");
            reveal_strlit("          ");
        }
        self.write_color(TextColor::Magenta);
        if header_level == 1 {
            self.write(upper.as_str());
        } else {
            self.write(indentation);
            self.write(upper.as_str());
        }
        self.write("\n");
        self.write_reset();
        next
    }

    /// Writes the text up to `**` from `pos` in colour `style`.
    fn parse_text_until(&mut self, chars: &Vec<char>, pos: usize, end_char: char, style: TextColor) -> (next: usize)
        requires
            pos <= chars@.len(),
            end_char == '*',
            double_star_ok(chars@, pos as int),
        ensures
            final(self).colors() == old(self).colors(),
            final(self).text() == old(self).text() + styled(old(self).colors(), style, double_star_text(chars@, pos as int).0),
            next == double_star_text(chars@, pos as int).1,
    {
        let (text, next) = scan_double_star(chars, pos);
        if text.len() > 0 {
            self.write_color(style);
            self.write_chars(&text);
            self.write_reset();
        }
        next
    }

    /// Writes emphasis read from `pos`, just after an opening `*`.
    fn write_emphasis(&mut self, chars: &Vec<char>, pos: usize) -> (next: usize)
        requires
            pos <= chars@.len(),
            emphasis_ok(chars@, pos as int),
        ensures
            final(self).colors() == old(self).colors(),
            final(self).text() == old(self).text() + emphasis_out(chars@, pos as int, old(self).colors()).0,
            next == emphasis_out(chars@, pos as int, old(self).colors()).1,
    {
        if pos < chars.len() && chars[pos] == '*' {
            self.write_color(TextColor::Green);
            let next = self.parse_text_until(chars, pos + 1, '*', TextColor::Green);
            self.write_reset();
            next
        } else {
            self.write_color(TextColor::Cyan);
            let next = self.parse_text_until(chars, pos, '*', TextColor::Cyan);
            self.write_reset();
            next
        }
    }

    /// Writes the link read from `pos`, just after `[`.
    fn handle_link(&mut self, chars: &Vec<char>, pos: usize) -> (next: usize)
        requires
            pos <= chars@.len(),
        ensures
            final(self).colors() == old(self).colors(),
            final(self).text() == old(self).text() + link_out(chars@, pos as int, old(self).colors()).0,
            next == link_out(chars@, pos as int, old(self).colors()).1,
    {
        let (text, j, found) = scan_to(chars, pos, ']');
        proof {
            lemma_until_char_ahead(chars@, pos as int, ']');
        }
        if found && j < chars.len() && chars[j] == '(' {
            let (_, k, _) = scan_to(chars, j + 1, ')');
            self.write_color(TextColor::Blue);
            self.write_chars(&text);
            self.write_reset();
            k
        } else {
            self.write("[");
            self.write_chars(&text);
            self.write("]");
            j
        }
    }

    /// Writes the code read from `pos`, just after a backtick; says whether
    /// it was a fenced block.
    fn handle_code_block(&mut self, chars: &Vec<char>, pos: usize) -> (res: (usize, bool))
        requires
            pos <= chars@.len(),
        ensures
            final(self).colors() == old(self).colors(),
            final(self).text() == old(self).text() + code_out(chars@, pos as int, old(self).colors()).0,
            res.0 == code_out(chars@, pos as int, old(self).colors()).1,
            res.1 == code_out(chars@, pos as int, old(self).colors()).2,
    {
        if pos < chars.len() && chars[pos] == '`' && pos + 1 < chars.len() && chars[pos + 1] == '`' {
            let (code, j) = scan_fence(chars, pos + 2);
            let trimmed = trim_chars(&code);
            self.write("\n");
            self.write_color(TextColor::Yellow);
            self.write_chars(&trimmed);
            self.write_reset();
            self.write("\n");
            return (j, true);
        }
        let k = if pos < chars.len() && chars[pos] == '`' { pos + 1 } else { pos };
        let (code, j, _) = scan_to(chars, k, '`');
        self.write_color(TextColor::Green);
        self.write_chars(&code);
        self.write_reset();
        (j, false)
    }

    /// Writes the list item read from `pos` to the end of its line.
    fn parse_list_item(&mut self, chars: &Vec<char>, pos: usize) -> (next: usize)
        requires
            pos <= chars@.len(),
            item_ok(chars@, pos as int, old(self).colors()),
        ensures
            final(self).colors() == old(self).colors(),
            final(self).text() == old(self).text() + item_out(chars@, pos as int, seq![], old(self).colors()).0,
            next == item_out(chars@, pos as int, seq![], old(self).colors()).1,
    {
        let ghost s = chars@;
        let ghost p = self.colors();
        let ghost t0 = self.text();
        let ghost goal = item_out(s, pos as int, seq![], p);
        let mut text: Vec<char> = Vec::new();
        let mut i = pos;
        loop
            invariant_except_break
                chars@ == s,
                pos <= i <= s.len(),
                self.colors() == p,
                item_ok(s, i as int, p),
                t0 + goal.0 == self.text() + item_out(s, i as int, text@, p).0,
                goal.1 == item_out(s, i as int, text@, p).1,
            ensures
                self.colors() == p,
                t0 + goal.0 == self.text(),
                goal.1 == i,
            decreases s.len() - i,
        {
            if i >= chars.len() || chars[i] == '\n' {
                let next = if i < chars.len() { i + 1 } else { i };
                self.write_chars(&text);
                self.write("\n");
                i = next;
                break;
            }
            let c = chars[i];
            if c == '*' {
                self.write_chars(&text);
                proof {
                    lemma_emphasis_out_ahead(s, i + 1, p);
                }
                let j = self.write_emphasis(chars, i + 1);
                text = Vec::new();
                i = j;
            } else if c == '[' {
                self.write_chars(&text);
                proof {
                    lemma_link_out_ahead(s, i + 1, p);
                }
                let j = self.handle_link(chars, i + 1);
                text = Vec::new();
                i = j;
            } else {
                text.push(c);
                i = i + 1;
            }
        }
        i
    }

    /// One step of rendering at `pos`: writes what `step_out` says and
    /// gives where reading goes on and whether a line then starts.
    fn step(&mut self, chars: &Vec<char>, pos: usize, line_start: bool) -> (res: (usize, bool))
        requires
            pos < chars@.len(),
            step_ok(chars@, pos as int, line_start, old(self).colors()),
        ensures
            final(self).colors() == old(self).colors(),
            final(self).text() == old(self).text() + step_out(chars@, pos as int, line_start, old(self).colors()).0,
            res.0 == step_out(chars@, pos as int, line_start, old(self).colors()).1,
            res.1 == step_out(chars@, pos as int, line_start, old(self).colors()).2,
    {
        let ghost s = chars@;
        let mut last_was_newline = line_start;
        let len = chars.len();
        let c = chars[pos];
        let mut pos = pos + 1;
        assert(pos <= len);
        if c == '#' {
            pos = self.parse_header(&chars, pos);
            last_was_newline = true;
        } else if (c == '-' || c == '*' || c == '+') && last_was_newline {
            let mut has_space = false;
            let ghost start = pos;
            proof {
                lemma_skip_blanks(s, start as int);
            }
            while pos < chars.len() && chars[pos] == ' '
                invariant
                    chars@ == s,
                    start <= pos <= s.len(),
                    skip_blanks(s, start as int) == skip_blanks(s, pos as int),
                    has_space == (pos > start),
                decreases s.len() - pos,
            {
                has_space = true;
                pos = pos + 1;
            }
            if has_space || c != '*' {
                self.write("• ");
                if c == '+' {
                    self.write("Third with ");
                }
                pos = self.parse_list_item(&chars, pos);
                last_was_newline = true;
            } else {
                pos = self.write_emphasis(&chars, pos);
                last_was_newline = false;
            }
        } else if c == '*' {
            pos = self.write_emphasis(&chars, pos);
            last_was_newline = false;
        } else if c == '`' {
            let (next, block) = self.handle_code_block(&chars, pos);
            pos = next;
            last_was_newline = block;
        } else if c == '[' {
            pos = self.handle_link(&chars, pos);
            last_was_newline = false;
        } else if c == '\n' {
            self.write("\n");
            last_was_newline = true;
        } else {
            let mut t = String::new();
            push_char(&mut t, c);
            self.write(t.as_str());
            last_was_newline = false;
        }
        (pos, last_was_newline)
    }

    /// Renders `markdown` and gives what was written.
    pub fn render(&mut self, markdown: &str) -> (out: String)
        requires
            render_ok(markdown@, 0, true, old(self).colors()),
        ensures
            final(self).colors() == old(self).colors(),
            final(self).text() == render_out(markdown@, 0, true, old(self).colors()),
            out@ == final(self).text(),
    {
        self.output = String::new();
        let chars = chars_of(markdown);
        let ghost s = markdown@;
        let ghost p = self.colors();
        let mut pos: usize = 0;
        let mut last_was_newline = true;
        while pos < chars.len()
            invariant
                chars@ == s,
                pos <= s.len(),
                self.colors() == p,
                render_ok(s, pos as int, last_was_newline, p),
                render_out(s, 0, true, p) == self.text() + render_out(s, pos as int, last_was_newline, p),
            decreases s.len() - pos,
        {
            let ghost old_pos = pos;
            let ghost old_nl = last_was_newline;
            let ghost before = self.text();
            proof {
                lemma_step_ahead(s, pos as int, last_was_newline, p);
            }
            let (next, nl) = self.step(&chars, pos, last_was_newline);
            pos = next;
            last_was_newline = nl;
            proof {
                let st = step_out(s, old_pos as int, old_nl, p);
                assert(render_out(s, old_pos as int, old_nl, p) == st.0 + render_out(s, pos as int, last_was_newline, p));
                assert(render_out(s, 0, true, p) =~= self.text() + render_out(s, pos as int, last_was_newline, p));
            }
        }
        self.output.clone()
    }
}

impl Default for MarkdownRenderer {
    fn default() -> (r: Self)
        ensures
            r.text() == Seq::<char>::empty(),
            palette_ok(r.colors()),
    {
        Self::new()
    }
}

} // verus!
