//! The texts of the welcome screen, cut to the width of its boxes.

use vstd::prelude::*;

use crate::interface::ui::{push_run, run, runs_view, Run, RunView, TermColor};
use crate::text::{
    byte_len, byte_len_of, chars_of, chars_view, copy_all, lemma_byte_len_bound, lemma_byte_len_concat,
    push_char, push_chars, skip_leading, skip_leading_chars, split_chars, split_chars_on, split_on, split_str,
    string_of, trim, trim_chars, utf8_width, words, words_of,
};

verus! {

/// The contents of a list of strings.
pub open spec fn strings_view(v: Seq<String>) -> Seq<Seq<char>> {
    Seq::new(v.len(), |i: int| v[i]@)
}

/// Greedy line filling over the first `k` words: the lines already full,
/// and the line being filled. A word joins the line (after one space) while
/// the line stays within `max` bytes; otherwise it starts a new line.
pub open spec fn greedy_lines(ws: Seq<Seq<char>>, max: nat, k: int) -> (Seq<Seq<char>>, Seq<char>)
    decreases k,
{
    if k <= 0 {
        (seq![], seq![])
    } else {
        let (ls, cur) = greedy_lines(ws, max, k - 1);
        let w = ws[k - 1];
        if cur.len() == 0 {
            (ls, w)
        } else if byte_len(cur) + 1 + byte_len(w) <= max {
            (ls, cur + seq![' '] + w)
        } else {
            (ls.push(cur), w)
        }
    }
}

/// The lines of one paragraph: one empty line if it holds only white space,
/// else its words filled greedily into lines of at most `max` bytes (a word
/// longer than that stands on a line of its own).
pub open spec fn wrap_paragraph(p: Seq<char>, max: nat) -> Seq<Seq<char>> {
    let ws = words(p);
    if ws.len() == 0 {
        seq![seq![]]
    } else {
        fill_words(ws, max)
    }
}

/// The words `ws` filled greedily into lines of at most `max` bytes (none
/// when there are no words).
pub open spec fn fill_words(ws: Seq<Seq<char>>, max: nat) -> Seq<Seq<char>> {
    let (ls, cur) = greedy_lines(ws, max, ws.len() as int);
    if cur.len() > 0 {
        ls.push(cur)
    } else {
        ls
    }
}

/// The lines of the first `k` paragraphs.
pub open spec fn wrap_paragraphs(ps: Seq<Seq<char>>, max: nat, k: int) -> Seq<Seq<char>>
    decreases k,
{
    if k <= 0 {
        seq![]
    } else {
        wrap_paragraphs(ps, max, k - 1) + wrap_paragraph(ps[k - 1], max)
    }
}

/// The lines of `text`: each line of the text (split at `\n`) wrapped on its own.
pub open spec fn wrapped(text: Seq<char>, max: nat) -> Seq<Seq<char>> {
    let ps = split_on(text, '\n');
    wrap_paragraphs(ps, max, ps.len() as int)
}

/// Fills the words `ws` greedily into lines of at most `max_width` bytes.
pub fn fill_lines(ws: &Vec<Vec<char>>, max_width: usize) -> (added: Vec<String>)
    ensures
        strings_view(added@) == fill_words(chars_view(ws@), max_width as nat),
{
    let ghost wsv = chars_view(ws@);
    let mut added: Vec<String> = Vec::new();
    let mut cur: Vec<char> = Vec::new();
    let mut cur_len: u128 = 0;
    let mut i: usize = 0;
    while i < ws.len()
        invariant
            i <= ws@.len(),
            ws@.len() == wsv.len(),
            forall|j: int| 0 <= j < ws@.len() ==> #[trigger] ws@[j]@ == wsv[j],
            strings_view(added@) == greedy_lines(wsv, max_width as nat, i as int).0,
            cur@ == greedy_lines(wsv, max_width as nat, i as int).1,
            cur_len == byte_len(cur@),
            cur_len <= 4 * (usize::MAX as u128),
        decreases ws@.len() - i,
    {
        let w = &ws[i];
        let wl = byte_len_of(w);
        let wn = w.len();
        proof {
            lemma_byte_len_bound(w@);
            assert(w@.len() == wn);
        }
        if cur.len() == 0 {
            cur = copy_all(w);
            cur_len = wl;
        } else if cur_len + 1 + wl <= max_width as u128 {
            let ghost old_cur = cur@;
            cur.push(' ');
            let mut j: usize = 0;
            while j < w.len()
                invariant
                    j <= w@.len(),
                    cur@ == old_cur + seq![' '] + w@.take(j as int),
                decreases w@.len() - j,
            {
                cur.push(w[j]);
                j = j + 1;
                assert(cur@ =~= old_cur + seq![' '] + w@.take(j as int));
            }
            assert(w@.take(w@.len() as int) =~= w@);
            proof {
                lemma_byte_len_concat(old_cur, seq![' ']);
                lemma_byte_len_concat(old_cur + seq![' '], w@);
                assert(byte_len(seq![' ']) == 1) by {
                    assert(seq![' '].drop_last() =~= Seq::<char>::empty());
                    assert((' ' as u32) == 32);
                    assert(utf8_width(' ') == 1);
                    reveal_with_fuel(byte_len, 2);
                }
            }
            cur_len = cur_len + 1 + wl;
        } else {
            let ghost before_added = strings_view(added@);
            added.push(string_of(&cur));
            assert(strings_view(added@) =~= before_added.push(cur@));
            cur = copy_all(w);
            cur_len = wl;
        }
        i = i + 1;
    }
    if cur.len() > 0 {
        let ghost before_added = strings_view(added@);
        added.push(string_of(&cur));
        assert(strings_view(added@) =~= before_added.push(cur@));
    }
    added
}

/// Wraps `text` into lines of at most `max_width` bytes.
pub fn wrap_text(text: &str, max_width: usize) -> (lines: Vec<String>)
    ensures
        strings_view(lines@) == wrapped(text@, max_width as nat),
{
    let chars = chars_of(text);
    let paragraphs = split_chars(&chars, '\n');
    let ghost ps = split_on(text@, '\n');
    let mut lines: Vec<String> = Vec::new();
    let mut k: usize = 0;
    while k < paragraphs.len()
        invariant
            k <= paragraphs@.len(),
            paragraphs@.len() == ps.len(),
            forall|j: int| 0 <= j < paragraphs@.len() ==> #[trigger] paragraphs@[j]@ == ps[j],
            strings_view(lines@) == wrap_paragraphs(ps, max_width as nat, k as int),
        decreases paragraphs@.len() - k,
    {
        let ghost before = strings_view(lines@);
        let ws = words_of(&paragraphs[k]);
        let ghost wsv = words(ps[k as int]);
        if ws.len() == 0 {
            lines.push(String::new());
            assert(strings_view(lines@) =~= before + seq![Seq::<char>::empty()]);
        } else {
            assert(chars_view(ws@) =~= wsv);
            let added = fill_lines(&ws, max_width);
            assert(strings_view(added@) == wrap_paragraph(ps[k as int], max_width as nat));
            let mut a: usize = 0;
            while a < added.len()
                invariant
                    a <= added@.len(),
                    strings_view(lines@) == before + strings_view(added@).take(a as int),
                decreases added@.len() - a,
            {
                let line = added[a].clone();
                assert(line@ == strings_view(added@)[a as int]);
                let ghost prev = lines@;
                lines.push(line);
                assert(strings_view(lines@) =~= strings_view(prev).push(line@));
                a = a + 1;
                assert(strings_view(lines@) =~= before + strings_view(added@).take(a as int));
            }
            assert(strings_view(added@).take(added@.len() as int) =~= strings_view(added@));
        }
        k = k + 1;
        assert(strings_view(lines@) =~= wrap_paragraphs(ps, max_width as nat, k as int));
    }
    lines
}

/// The headings a section of the welcome message may start with, tried in
/// this order.
pub open spec fn section_headings() -> Seq<Seq<char>> {
    seq![
        "**Did You Know?**"@,
        "Did You Know?"@,
        "**Tip of the Day**"@,
        "Tip of the Day"@,
        "**Challenge**"@,
        "Challenge"@,
        "###"@,
    ]
}

/// `s` after trying each heading of `hs` in turn: where it starts with the
/// heading, the heading is cut off and the rest trimmed.
pub open spec fn strip_headings(s: Seq<char>, hs: Seq<Seq<char>>) -> Seq<char>
    decreases hs.len(),
{
    if hs.len() == 0 {
        s
    } else {
        let s2 = if hs[0].is_prefix_of(s) { trim(s.skip(hs[0].len() as int)) } else { s };
        strip_headings(s2, hs.drop_first())
    }
}

/// The body of a section of the welcome message: trimmed, its headings cut
/// off, without line breaks in front, trimmed again.
pub open spec fn clean_section(text: Seq<char>) -> Seq<char> {
    trim(skip_leading(strip_headings(trim(text), section_headings()), '\n'))
}

fn heading_list() -> (v: Vec<Vec<char>>)
    ensures
        chars_view(v@) == section_headings(),
{
    let mut v: Vec<Vec<char>> = Vec::new();
    v.push(chars_of("**Did You Know?**"));
    v.push(chars_of("Did You Know?"));
    v.push(chars_of("**Tip of the Day**"));
    v.push(chars_of("Tip of the Day"));
    v.push(chars_of("**Challenge**"));
    v.push(chars_of("Challenge"));
    v.push(chars_of("###"));
    assert(chars_view(v@) =~= section_headings());
    v
}

pub fn clean_section_text(text: &str) -> (s: String)
    ensures
        s@ == clean_section(text@),
{
    let raw = chars_of(text);
    let mut result = trim_chars(&raw);
    let headings = heading_list();
    let ghost hs = section_headings();
    let mut i: usize = 0;
    assert(hs.skip(0) =~= hs);
    while i < headings.len()
        invariant
            i <= headings@.len(),
            chars_view(headings@) == hs,
            strip_headings(trim(text@), hs) == strip_headings(result@, hs.skip(i as int)),
        decreases headings@.len() - i,
    {
        let ghost rest = hs.skip(i as int);
        assert(rest[0] == headings@[i as int]@);
        assert(rest.drop_first() =~= hs.skip(i + 1));
        match crate::text::strip_prefix_chars(&result, &headings[i]) {
            Some(stripped) => {
                result = trim_chars(&stripped);
            },
            None => {},
        }
        i = i + 1;
    }
    assert(hs.skip(i as int).len() == 0);
    let no_breaks = skip_leading_chars(&result, '\n');
    let cleaned = trim_chars(&no_breaks);
    string_of(&cleaned)
}

/// The fact, tip and challenge shown when the message has no three sections.
pub open spec fn default_sections() -> (Seq<char>, Seq<char>, Seq<char>) {
    (
        "The game of checkers has been played for thousands of years!"@,
        "Always try to control the center of the board."@,
        "Try to win a game without losing any pieces!"@,
    )
}

/// The fact, tip and challenge of a welcome message: its first three
/// sections (parted by blank lines), cleaned, or the defaults when it has
/// fewer than three.
pub open spec fn message_sections(message: Seq<char>) -> (Seq<char>, Seq<char>, Seq<char>) {
    let parts = split_str(message, "\n\n"@);
    if parts.len() >= 3 {
        (clean_section(parts[0]), clean_section(parts[1]), clean_section(parts[2]))
    } else {
        default_sections()
    }
}

pub fn welcome_sections(message: &str) -> (res: (String, String, String))
    ensures
        (res.0@, res.1@, res.2@) == message_sections(message@),
{
    let chars = chars_of(message);
    let sep = chars_of("\n\n");
    proof {
        reveal_strlit("\n\n");
    }
    let sections = split_chars_on(&chars, &sep);
    if sections.len() >= 3 {
        let a = string_of(&sections[0]);
        let b = string_of(&sections[1]);
        let c = string_of(&sections[2]);
        (clean_section_text(a.as_str()), clean_section_text(b.as_str()), clean_section_text(c.as_str()))
    } else {
        (
            String::from_str("The game of checkers has been played for thousands of years!"),
            String::from_str("Always try to control the center of the board."),
            String::from_str("Try to win a game without losing any pieces!"),
        )
    }
}

/// How many blanks put a text of `width` columns in the middle of a
/// terminal `cols` wide.
pub fn center_offset(cols: u16, content_width: usize) -> (x: u16)
    ensures
        x == (if cols > content_width { (cols - content_width) / 2 } else { 0 }),
{
    if (cols as usize) > content_width {
        ((cols as usize - content_width) / 2) as u16
    } else {
        0
    }
}

/// `n` blanks.
pub open spec fn blanks(n: nat) -> Seq<char> {
    Seq::new(n, |i: int| ' ')
}

/// A line of the fact box: the text padded with blanks to `width`
/// characters, between the box's sides.
pub open spec fn boxed_line_text(line: Seq<char>, width: nat) -> Seq<char> {
    "│ "@ + line + blanks(if line.len() < width { (width - line.len()) as nat } else { 0 }) + " │"@
}

pub fn boxed_line(line: &str, width: usize) -> (s: String)
    ensures
        s@ == boxed_line_text(line@, width as nat),
{
    let chars = chars_of(line);
    let mut s = String::from_str("│ ");
    push_chars(&mut s, &chars);
    let mut n = chars.len();
    let ghost before = s@;
    while n < width
        invariant
            chars@.len() <= n <= width || (n == chars@.len() && n >= width),
            s@ == before + blanks((n - chars@.len()) as nat),
        decreases width - n,
    {
        push_char(&mut s, ' ');
        n = n + 1;
        assert(s@ =~= before + blanks((n - chars@.len()) as nat));
    }
    s.append(" │");
    proof {
        reveal_strlit("│ ");
        reveal_strlit(" │");
    }
    assert(s@ =~= boxed_line_text(line@, width as nat));
    s
}

/// How many blanks put a text `width` columns wide in the middle of a
/// terminal `cols` wide.
pub open spec fn center_blanks(cols: u16, width: nat) -> nat {
    if cols > width {
        ((cols - width) / 2) as nat
    } else {
        0
    }
}

/// A line of the printed welcome screen: `text` centred as a text `width`
/// columns wide, then a line break.
pub open spec fn centered(text: Seq<char>, width: nat, cols: u16) -> Seq<char> {
    blanks(center_blanks(cols, width)) + text + "\n"@
}

/// The first `k` of `ls`, each centred.
pub open spec fn centered_all(ls: Seq<Seq<char>>, width: nat, cols: u16, k: int) -> Seq<char>
    decreases k,
{
    if k <= 0 {
        Seq::empty()
    } else {
        centered_all(ls, width, cols, k - 1) + centered(ls[k - 1], width, cols)
    }
}

/// The first `k` lines of the fact box, each between the box's sides.
pub open spec fn boxed_all(ls: Seq<Seq<char>>, cols: u16, k: int) -> Seq<char>
    decreases k,
{
    if k <= 0 {
        Seq::empty()
    } else {
        boxed_all(ls, cols, k - 1) + blanks(center_blanks(cols, 65)) + boxed_line_text(ls[k - 1], 61) + "\n"@
    }
}

/// The title art in red, after an empty line.
pub open spec fn art_text(cols: u16) -> Seq<char> {
    "\n"@ + centered("╔═╗╦ ╦╔═╗╔═╗╦╔═╔═╗╦═╗╔═╗"@, 24, cols) + centered("║  ╠═╣║╣ ║  ╠╩╗║╣ ╠╦╝╚═╗"@, 24, cols)
        + centered("╚═╝╩ ╩╚═╝╚═╝╩ ╩╚═╝╩╚═╚═╝"@, 24, cols) + centered("░░░░░░░░░░░░░░░░░░░░░░░░"@, 24, cols)
}

/// The fact in a blue box 65 columns wide, wrapped at 61.
pub open spec fn fact_text(fact: Seq<char>, cols: u16) -> Seq<char> {
    let ls = wrapped(fact, 61);
    centered("┌─────────────────────── Did You Know? ─────────────────────────┐"@, 65, cols) + boxed_all(ls, cols, ls.len() as int) + centered("└───────────────────────────────────────────────────────────────┘"@, 65, cols)
}

/// A titled section: the title, the underline in blue, the text wrapped at
/// 65 and centred, then an empty line.
pub open spec fn section_runs(title: Seq<char>, underline: Seq<char>, text: Seq<char>, cols: u16) -> Seq<RunView> {
    let ls = wrapped(text, 65);
    seq![
        run(centered(title, 65, cols), None, false),
        run(centered(underline, 65, cols), Some(TermColor::Blue), false),
        run(centered_all(ls, 65, cols, ls.len() as int) + "\n"@, None, false),
    ]
}

/// What the printed welcome screen writes for `message` in a terminal
/// `cols` wide: the title art, the fact, the tip, the challenge and the
/// keys to go on, from the sections of the message.
pub open spec fn welcome_runs(message: Seq<char>, cols: u16) -> Seq<RunView> {
    let (fact, tip, challenge) = message_sections(message);
    seq![
        run(art_text(cols), Some(TermColor::Red), false),
        run("\n"@, None, false),
        run(fact_text(fact, cols), Some(TermColor::Blue), false),
        run("\n"@, None, false),
    ] + section_runs("💡 Tip of the Day"@, "════════════════"@, tip, cols)
        + section_runs("🎯 Today's Challenge"@, "═══════════════════"@, challenge, cols)
        + seq![run(centered("Press ENTER to begin or Q/ESC to quit..."@, 65, cols), Some(TermColor::DarkGrey), false)]
}

/// Adds `n` blanks.
fn push_blanks(s: &mut String, n: u16)
    ensures
        final(s)@ == old(s)@ + blanks(n as nat),
{
    let mut i: u16 = 0;
    while i < n
        invariant
            i <= n,
            s@ == old(s)@ + blanks(i as nat),
        decreases n - i,
    {
        push_char(s, ' ');
        i = i + 1;
        assert(s@ =~= old(s)@ + blanks(i as nat));
    }
}

/// Adds `text` centred as a text `width` columns wide, then a line break.
fn push_centered(s: &mut String, text: &str, width: usize, cols: u16)
    ensures
        final(s)@ == old(s)@ + centered(text@, width as nat, cols),
{
    push_blanks(s, center_offset(cols, width));
    s.append(text);
    s.append("\n");
    proof { reveal_strlit("\n"); }
    assert(s@ =~= old(s)@ + centered(text@, width as nat, cols));
}

/// Adds each of `lines`, centred as a text 65 columns wide.
fn push_centered_lines(s: &mut String, lines: &Vec<String>, cols: u16)
    ensures
        final(s)@ == old(s)@ + centered_all(strings_view(lines@), 65, cols, lines@.len() as int),
{
    let mut i: usize = 0;
    while i < lines.len()
        invariant
            i <= lines@.len(),
            s@ == old(s)@ + centered_all(strings_view(lines@), 65, cols, i as int),
        decreases lines@.len() - i,
    {
        push_centered(s, lines[i].as_str(), 65, cols);
        assert(s@ =~= old(s)@ + centered_all(strings_view(lines@), 65, cols, i + 1));
        i = i + 1;
    }
}

/// The fact box.
fn fact_box(fact: &str, cols: u16) -> (s: String)
    ensures
        s@ == fact_text(fact@, cols),
{
    let mut s = String::new();
    push_centered(&mut s, "┌─────────────────────── Did You Know? ─────────────────────────┐", 65, cols);
    let ghost head = s@;
    let lines = wrap_text(fact, 61);
    let ghost ls = wrapped(fact@, 61);
    let mut i: usize = 0;
    while i < lines.len()
        invariant
            i <= lines@.len(),
            strings_view(lines@) == ls,
            s@ == head + boxed_all(ls, cols, i as int),
        decreases lines@.len() - i,
    {
        push_blanks(&mut s, center_offset(cols, 65));
        let boxed = boxed_line(lines[i].as_str(), 61);
        s.append(boxed.as_str());
        s.append("\n");
        proof { reveal_strlit("\n"); }
        assert(lines@[i as int]@ == ls[i as int]);
        assert(s@ =~= head + boxed_all(ls, cols, i + 1));
        i = i + 1;
    }
    push_centered(&mut s, "└───────────────────────────────────────────────────────────────┘", 65, cols);
    assert(s@ =~= fact_text(fact@, cols));
    s
}

/// Adds a titled section.
fn push_section(runs: &mut Vec<Run>, title: &str, underline: &str, text: &str, cols: u16)
    ensures
        runs_view(final(runs)@) == runs_view(old(runs)@) + section_runs(title@, underline@, text@, cols),
{
    let mut head = String::new();
    push_centered(&mut head, title, 65, cols);
    push_run(runs, head, None, false);
    let mut line = String::new();
    push_centered(&mut line, underline, 65, cols);
    push_run(runs, line, Some(TermColor::Blue), false);
    let lines = wrap_text(text, 65);
    let mut body = String::new();
    push_centered_lines(&mut body, &lines, cols);
    body.append("\n");
    proof { reveal_strlit("\n"); }
    push_run(runs, body, None, false);
    assert(runs_view(runs@) =~= runs_view(old(runs)@) + section_runs(title@, underline@, text@, cols));
}

/// What the printed welcome screen writes for `message` in a terminal
/// `cols` wide, after the screen is cleared.
pub fn welcome_screen_runs(message: &str, cols: u16) -> (runs: Vec<Run>)
    ensures
        runs_view(runs@) == welcome_runs(message@, cols),
{
    let mut runs: Vec<Run> = Vec::new();
    let mut art = String::from_str("\n");
    push_centered(&mut art, "╔═╗╦ ╦╔═╗╔═╗╦╔═╔═╗╦═╗╔═╗", 24, cols);
    push_centered(&mut art, "║  ╠═╣║╣ ║  ╠╩╗║╣ ╠╦╝╚═╗", 24, cols);
    push_centered(&mut art, "╚═╝╩ ╩╚═╝╚═╝╩ ╩╚═╝╩╚═╚═╝", 24, cols);
    push_centered(&mut art, "░░░░░░░░░░░░░░░░░░░░░░░░", 24, cols);
    proof { reveal_strlit("\n"); }
    assert(art@ =~= art_text(cols));
    push_run(&mut runs, art, Some(TermColor::Red), false);
    push_run(&mut runs, String::from_str("\n"), None, false);
    let (fact, tip, challenge) = welcome_sections(message);
    push_run(&mut runs, fact_box(fact.as_str(), cols), Some(TermColor::Blue), false);
    push_run(&mut runs, String::from_str("\n"), None, false);
    push_section(&mut runs, "💡 Tip of the Day", "════════════════", tip.as_str(), cols);
    push_section(&mut runs, "🎯 Today's Challenge", "═══════════════════", challenge.as_str(), cols);
    let mut keys = String::new();
    push_centered(&mut keys, "Press ENTER to begin or Q/ESC to quit...", 65, cols);
    push_run(&mut runs, keys, Some(TermColor::DarkGrey), false);
    assert(runs_view(runs@) =~= welcome_runs(message@, cols));
    runs
}

} // verus!
