//! Bold (`**`) and italic (`*`) text, with emphasis nested inside.

use vstd::prelude::*;

use crate::markdown::style::{PaletteView, TextColor};
use crate::utils::markdown::style::{after_colored, StyleWriter, WriterState};

verus! {

/// Emphasised text: bold (green) or italic (cyan).
pub struct Emphasis {
    text: String,
    is_bold: bool,
}

impl View for Emphasis {
    type V = (Seq<char>, bool);

    closed spec fn view(&self) -> (Seq<char>, bool) {
        (self.text@, self.is_bold)
    }
}

/// A run of text and its colour.
pub type Run = (Seq<char>, TextColor);

/// The colour of the emphasis itself.
pub open spec fn base_color(is_bold: bool) -> TextColor {
    if is_bold { TextColor::Green } else { TextColor::Cyan }
}

/// The text from `i` up to the next `**` (which is passed over), and where
/// reading goes on.
pub open spec fn bold_until(s: Seq<char>, i: int) -> (Seq<char>, int)
    decreases s.len() - i,
{
    if i >= s.len() {
        (seq![], s.len() as int)
    } else if s[i] == '*' && i + 1 < s.len() && s[i + 1] == '*' {
        (seq![], i + 2)
    } else {
        let (t, j) = bold_until(s, i + 1);
        (seq![s[i]] + t, j)
    }
}

/// The text from `i` up to the next `*` (which is passed over), and where
/// reading goes on.
pub open spec fn italic_until(s: Seq<char>, i: int) -> (Seq<char>, int)
    decreases s.len() - i,
{
    if i >= s.len() {
        (seq![], s.len() as int)
    } else if s[i] == '*' {
        (seq![], i + 1)
    } else {
        let (t, j) = italic_until(s, i + 1);
        (seq![s[i]] + t, j)
    }
}

pub proof fn lemma_bold_until_ahead(s: Seq<char>, i: int)
    requires
        0 <= i,
    ensures
        i <= bold_until(s, i).1 <= s.len() || (i > s.len() && bold_until(s, i).1 == s.len()),
        i < s.len() ==> bold_until(s, i).1 > i,
    decreases s.len() - i,
{
    if i < s.len() {
        lemma_bold_until_ahead(s, i + 1);
    }
}

pub proof fn lemma_italic_until_ahead(s: Seq<char>, i: int)
    requires
        0 <= i,
    ensures
        i <= italic_until(s, i).1 <= s.len() || (i > s.len() && italic_until(s, i).1 == s.len()),
        i < s.len() ==> italic_until(s, i).1 > i,
    decreases s.len() - i,
{
    if i < s.len() {
        lemma_italic_until_ahead(s, i + 1);
    }
}

/// The runs of `s` read from `i`, with `current` already gathered in the
/// emphasis' own colour `base`: a `**` or `*` ends the text gathered so far
/// and opens a nested bold (green) or italic (cyan) run up to its closing
/// marker.
pub open spec fn nested_runs(s: Seq<char>, i: int, current: Seq<char>, base: TextColor) -> Seq<Run>
    decreases s.len() - i,
{
    if i < 0 || i >= s.len() {
        if current.len() > 0 { seq![(current, base)] } else { seq![] }
    } else if s[i] == '*' {
        let before: Seq<Run> = if current.len() > 0 { seq![(current, base)] } else { seq![] };
        if i + 1 < s.len() && s[i + 1] == '*' {
            let (t, j) = bold_until(s, i + 2);
            proof {
                lemma_bold_until_ahead(s, i + 2);
            }
            before + seq![(t, TextColor::Green)] + nested_runs(s, j, seq![], base)
        } else {
            let (t, j) = italic_until(s, i + 1);
            proof {
                lemma_italic_until_ahead(s, i + 1);
            }
            before + seq![(t, TextColor::Cyan)] + nested_runs(s, j, seq![], base)
        }
    } else {
        nested_runs(s, i + 1, current.push(s[i]), base)
    }
}

/// The runs an emphasis writes: the whole text in its colour when it holds
/// no `*`, else its nested runs.
pub open spec fn emphasis_runs(e: (Seq<char>, bool)) -> Seq<Run> {
    if e.0.contains('*') {
        nested_runs(e.0, 0, seq![], base_color(e.1))
    } else {
        seq![(e.0, base_color(e.1))]
    }
}

/// The state after writing `runs` one after the other.
pub open spec fn write_runs(st: WriterState, runs: Seq<Run>, p: PaletteView) -> WriterState
    decreases runs.len(),
{
    if runs.len() == 0 {
        st
    } else {
        write_runs(after_colored(st, runs[0].0, runs[0].1, p), runs.drop_first(), p)
    }
}

proof fn lemma_write_runs_push(st: WriterState, runs: Seq<Run>, r: Run, p: PaletteView)
    ensures
        write_runs(st, runs.push(r), p) == after_colored(write_runs(st, runs, p), r.0, r.1, p),
    decreases runs.len(),
{
    if runs.len() == 0 {
        assert(runs.push(r).drop_first() =~= Seq::<Run>::empty());
        assert(write_runs(after_colored(st, r.0, r.1, p), Seq::<Run>::empty(), p) == after_colored(st, r.0, r.1, p));
        assert(runs.push(r)[0] == r);
    } else {
        assert(runs.push(r).drop_first() =~= runs.drop_first().push(r));
        assert(runs.push(r)[0] == runs[0]);
        lemma_write_runs_push(after_colored(st, runs[0].0, runs[0].1, p), runs.drop_first(), r, p);
    }
}

/// Whether `text` holds a `*`.
fn has_star(text: &str) -> (res: bool)
    ensures
        res == text@.contains('*'),
{
    let chars = crate::text::chars_of(text);
    let mut i: usize = 0;
    while i < chars.len()
        invariant
            chars@ == text@,
            i <= chars@.len(),
            forall|k: int| 0 <= k < i ==> chars@[k] != '*',
        decreases chars@.len() - i,
    {
        if chars[i] == '*' {
            return true;
        }
        i = i + 1;
    }
    false
}

/// The texts and colours of a list of runs.
pub open spec fn runs_view(v: Seq<(String, TextColor)>) -> Seq<Run> {
    Seq::new(v.len(), |i: int| (v[i].0@, v[i].1))
}

fn take_char_string(v: &Vec<char>) -> (s: String)
    ensures
        s@ == v@,
{
    crate::text::string_of(v)
}

/// The runs of `text` read with `base` as the emphasis' own colour.
pub fn scan_runs(text: &str, base_color: TextColor) -> (runs: Vec<(String, TextColor)>)
    ensures
        runs_view(runs@) == nested_runs(text@, 0, seq![], base_color),
{
    let chars = crate::text::chars_of(text);
    let ghost s = text@;
    let ghost total = nested_runs(s, 0, seq![], base_color);
    let mut runs: Vec<(String, TextColor)> = Vec::new();
    let mut current: Vec<char> = Vec::new();
    let mut i: usize = 0;
    while i < chars.len()
        invariant
            chars@ == s,
            i <= s.len(),
            total == runs_view(runs@) + nested_runs(s, i as int, current@, base_color),
        decreases s.len() - i,
    {
        let ch = chars[i];
        if ch == '*' {
            if current.len() > 0 {
                let run = take_char_string(&current);
                let ghost before = runs_view(runs@);
                runs.push((run, base_color));
                proof {
                    assert(runs_view(runs@) =~= before.push((current@, base_color)));
                }
                current = Vec::new();
            }
            let mut nested: Vec<char> = Vec::new();
            if i + 1 < chars.len() && chars[i + 1] == '*' {
                let mut j: usize = i + 2;
                proof {
                    lemma_bold_until_ahead(s, i + 2);
                }
                while j < chars.len() && !(chars[j] == '*' && j + 1 < chars.len() && chars[j + 1] == '*')
                    invariant
                        chars@ == s,
                        i + 2 <= j <= s.len(),
                        bold_until(s, i + 2) == (nested@ + bold_until(s, j as int).0, bold_until(s, j as int).1),
                    decreases s.len() - j,
                {
                    nested.push(chars[j]);
                    j = j + 1;
                    assert(bold_until(s, j - 1) == (seq![s[j - 1]] + bold_until(s, j as int).0, bold_until(s, j as int).1));
                    assert(nested@ + bold_until(s, j as int).0 =~= nested@.drop_last() + (seq![s[j - 1]] + bold_until(s, j as int).0));
                }
                let next = if j < chars.len() { j + 2 } else { j };
                assert(bold_until(s, i + 2) == (nested@, next as int)) by {
                    assert(nested@ + Seq::<char>::empty() =~= nested@);
                }
                let run = take_char_string(&nested);
                let ghost before = runs_view(runs@);
                runs.push((run, TextColor::Green));
                proof {
                    assert(runs_view(runs@) =~= before.push((nested@, TextColor::Green)));
                    assert(total == runs_view(runs@) + nested_runs(s, next as int, seq![], base_color)) by {
                        assert(seq![(nested@, TextColor::Green)] + nested_runs(s, next as int, seq![], base_color)
                            == nested_runs(s, i as int, current@, base_color));
                    }
                }
                current = Vec::new();
                proof {
                    lemma_bold_until_ahead(s, i + 2);
                }
                i = next;
            } else {
                let mut j: usize = i + 1;
                while j < chars.len() && chars[j] != '*'
                    invariant
                        chars@ == s,
                        i + 1 <= j <= s.len(),
                        italic_until(s, i + 1) == (nested@ + italic_until(s, j as int).0, italic_until(s, j as int).1),
                    decreases s.len() - j,
                {
                    nested.push(chars[j]);
                    j = j + 1;
                    assert(nested@ + italic_until(s, j as int).0 =~= nested@.drop_last() + (seq![s[j - 1]] + italic_until(s, j as int).0));
                }
                let next = if j < chars.len() { j + 1 } else { j };
                assert(italic_until(s, i + 1) == (nested@, next as int)) by {
                    assert(nested@ + Seq::<char>::empty() =~= nested@);
                }
                let run = take_char_string(&nested);
                let ghost before = runs_view(runs@);
                runs.push((run, TextColor::Cyan));
                proof {
                    assert(runs_view(runs@) =~= before.push((nested@, TextColor::Cyan)));
                }
                current = Vec::new();
                i = next;
            }
        } else {
            current.push(ch);
            i = i + 1;
        }
    }
    if current.len() > 0 {
        let run = take_char_string(&current);
        let ghost before = runs_view(runs@);
        runs.push((run, base_color));
        proof {
            assert(runs_view(runs@) =~= before.push((current@, base_color)));
        }
    }
    assert(total =~= runs_view(runs@));
    runs
}

impl Emphasis {
    pub fn new(text: String, is_bold: bool) -> (e: Self)
        ensures
            e@ == (text@, is_bold),
    {
        Emphasis { text, is_bold }
    }

    /// Writes the runs of `text`, read with this emphasis' colour.
    fn parse_nested(&self, text: &str, writer: &mut StyleWriter)
        ensures
            final(writer).colors() == old(writer).colors(),
            final(writer).state() == write_runs(old(writer).state(), nested_runs(text@, 0, seq![], base_color(self@.1)), old(writer).colors()),
    {
        let base = if self.is_bold { TextColor::Green } else { TextColor::Cyan };
        let runs = scan_runs(text, base);
        let ghost p = writer.colors();
        let ghost st0 = writer.state();
        let mut i: usize = 0;
        while i < runs.len()
            invariant
                i <= runs@.len(),
                writer.colors() == p,
                writer.state() == write_runs(st0, runs_view(runs@).take(i as int), p),
            decreases runs@.len() - i,
        {
            writer.write_colored(runs[i].0.as_str(), runs[i].1);
            proof {
                lemma_write_runs_push(st0, runs_view(runs@).take(i as int), runs_view(runs@)[i as int], p);
                assert(runs_view(runs@).take(i as int).push(runs_view(runs@)[i as int]) =~= runs_view(runs@).take(i + 1));
            }
            i = i + 1;
        }
        assert(runs_view(runs@).take(runs@.len() as int) =~= runs_view(runs@));
    }

    /// The runs the emphasis writes.
    pub fn runs(&self) -> (runs: Vec<(String, TextColor)>)
        ensures
            runs_view(runs@) == emphasis_runs(self@),
    {
        if has_star(self.text.as_str()) {
            let base = if self.is_bold { TextColor::Green } else { TextColor::Cyan };
            scan_runs(self.text.as_str(), base)
        } else {
            let color = if self.is_bold { TextColor::Green } else { TextColor::Cyan };
            let mut v: Vec<(String, TextColor)> = Vec::new();
            v.push((self.text.clone(), color));
            assert(runs_view(v@) =~= seq![(self@.0, color)]);
            v
        }
    }

    /// Writes the emphasis: its runs, each in its colour.
    pub fn render(&self, writer: &mut StyleWriter)
        ensures
            final(writer).colors() == old(writer).colors(),
            final(writer).state() == write_runs(old(writer).state(), emphasis_runs(self@), old(writer).colors()),
    {
        if has_star(self.text.as_str()) {
            self.parse_nested(self.text.as_str(), writer);
        } else {
            let color = if self.is_bold { TextColor::Green } else { TextColor::Cyan };
            writer.write_colored(self.text.as_str(), color);
            proof {
                let st = old(writer).state();
                let runs = seq![(self@.0, color)];
                assert(runs.drop_first() =~= Seq::<Run>::empty());
                let st1 = after_colored(st, self@.0, color, old(writer).colors());
                assert(write_runs(st1, Seq::<Run>::empty(), old(writer).colors()) == st1);
                assert(write_runs(st, runs, old(writer).colors()) == st1);
            }
        }
    }
}

} // verus!
