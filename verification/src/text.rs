//! Building text one character at a time.

use vstd::prelude::*;

verus! {

/// Appends one character to a string.
///
/// Calls `String::push`, which (by its documentation) appends the character
/// to the end of the string; the contract states exactly that.
#[verifier::external_body]
pub(crate) fn push_char(s: &mut String, c: char)
    ensures
        final(s)@ == old(s)@.push(c),
{
    s.push(c);
}

/// The text in capitals as `str::to_uppercase` gives it: each character
/// mapped by Unicode's rules, where one character may become several.
pub uninterp spec fn uppercase(s: Seq<char>) -> Seq<char>;

/// Calls `str::to_uppercase`. What it returns depends on the text alone and
/// is given the name `uppercase`; the Unicode tables behind it are not
/// written out here.
#[verifier::external_body]
pub(crate) fn to_upper(s: &str) -> (r: String)
    ensures
        r@ == uppercase(s@),
{
    s.to_uppercase()
}

/// The decimal digit of `d` (`d < 10`).
pub open spec fn digit_char(d: nat) -> char {
    (d + 48) as char
}

/// The decimal notation of `n`, without leading zeros.
pub open spec fn decimal(n: nat) -> Seq<char>
    decreases n,
{
    if n < 10 {
        seq![digit_char(n)]
    } else {
        decimal(n / 10).push(digit_char(n % 10))
    }
}

/// Appends the decimal notation of `n`.
pub fn push_decimal(s: &mut String, n: usize)
    ensures
        final(s)@ == old(s)@ + decimal(n as nat),
    decreases n,
{
    if n >= 10 {
        push_decimal(s, n / 10);
    }
    let d = (n % 10) as u32 + 48;
    let c = char_from_digit(d);
    push_char(s, c);
    assert(final(s)@ =~= old(s)@ + decimal(n as nat));
}

fn char_from_digit(d: u32) -> (c: char)
    requires
        48 <= d < 58,
    ensures
        c == d as char,
{
    let b: u8 = d as u8;
    b as char
}

/// The characters of `s`.
pub fn chars_of(s: &str) -> (v: Vec<char>)
    ensures
        v@ == s@,
{
    broadcast use vstd::string::group_string_axioms;
    let mut v: Vec<char> = Vec::new();
    for c in it: s.chars()
        invariant
            it.seq() == s@,
            v@ == it.seq().take(it.index()),
    {
        v.push(c);
        assert(v@ =~= it.seq().take(it.index() + 1));
    }
    assert(v@ =~= s@);
    v
}

/// The string holding the characters `v`.
pub fn string_of(v: &Vec<char>) -> (s: String)
    ensures
        s@ == v@,
{
    let mut s = String::new();
    let mut i: usize = 0;
    while i < v.len()
        invariant
            i <= v@.len(),
            s@ == v@.take(i as int),
        decreases v@.len() - i,
    {
        push_char(&mut s, v[i]);
        i = i + 1;
        assert(s@ =~= v@.take(i as int));
    }
    assert(v@.take(v@.len() as int) =~= v@);
    s
}

/// Whether `c` is white space in Unicode (the `White_Space` property, which
/// `char::is_whitespace` tests).
pub open spec fn is_space(c: char) -> bool {
    let u = c as u32;
    ||| 0x9 <= u <= 0xD
    ||| u == 0x20
    ||| u == 0x85
    ||| u == 0xA0
    ||| u == 0x1680
    ||| 0x2000 <= u <= 0x200A
    ||| u == 0x2028
    ||| u == 0x2029
    ||| u == 0x202F
    ||| u == 0x205F
    ||| u == 0x3000
}

pub fn is_whitespace(c: char) -> (b: bool)
    ensures
        b == is_space(c),
{
    let u = c as u32;
    (0x9 <= u && u <= 0xD) || u == 0x20 || u == 0x85 || u == 0xA0 || u == 0x1680 || (0x2000 <= u
        && u <= 0x200A) || u == 0x2028 || u == 0x2029 || u == 0x202F || u == 0x205F || u == 0x3000
}

/// The number of bytes of `c` in UTF-8.
pub open spec fn utf8_width(c: char) -> nat {
    let u = c as u32;
    if u < 0x80 {
        1
    } else if u < 0x800 {
        2
    } else if u < 0x10000 {
        3
    } else {
        4
    }
}

/// The number of bytes of `s` in UTF-8, as `str::len` counts them.
pub open spec fn byte_len(s: Seq<char>) -> nat
    decreases s.len(),
{
    if s.len() == 0 {
        0
    } else {
        byte_len(s.drop_last()) + utf8_width(s.last())
    }
}

pub proof fn lemma_byte_len_bound(s: Seq<char>)
    ensures
        byte_len(s) <= 4 * s.len(),
    decreases s.len(),
{
    if s.len() > 0 {
        lemma_byte_len_bound(s.drop_last());
    }
}

pub proof fn lemma_byte_len_concat(a: Seq<char>, b: Seq<char>)
    ensures
        byte_len(a + b) == byte_len(a) + byte_len(b),
    decreases b.len(),
{
    if b.len() == 0 {
        assert(a + b =~= a);
    } else {
        lemma_byte_len_concat(a, b.drop_last());
        assert((a + b).drop_last() =~= a + b.drop_last());
    }
}

fn char_width(c: char) -> (w: usize)
    ensures
        w == utf8_width(c),
{
    let u = c as u32;
    if u < 0x80 {
        1
    } else if u < 0x800 {
        2
    } else if u < 0x10000 {
        3
    } else {
        4
    }
}

/// The number of bytes of `v` in UTF-8.
pub fn byte_len_of(v: &Vec<char>) -> (n: u128)
    ensures
        n == byte_len(v@),
{
    let mut n: u128 = 0;
    let mut i: usize = 0;
    while i < v.len()
        invariant
            i <= v@.len(),
            n == byte_len(v@.take(i as int)),
            n <= 4 * i,
        decreases v@.len() - i,
    {
        let w = char_width(v[i]);
        assert(v@.take(i + 1).drop_last() =~= v@.take(i as int));
        n = n + w as u128;
        i = i + 1;
    }
    assert(v@.take(v@.len() as int) =~= v@);
    n
}

/// The pieces of `s` between the occurrences of `sep` in the first `k`
/// characters: the pieces already closed, and the piece still open.
pub open spec fn split_prefix(s: Seq<char>, sep: char, k: int) -> (Seq<Seq<char>>, Seq<char>)
    decreases k,
{
    if k <= 0 {
        (seq![], seq![])
    } else {
        let (done, cur) = split_prefix(s, sep, k - 1);
        if s[k - 1] == sep {
            (done.push(cur), seq![])
        } else {
            (done, cur.push(s[k - 1]))
        }
    }
}

/// The pieces of `s` between the occurrences of `sep`, as `str::split`
/// gives them (empty pieces included).
pub open spec fn split_on(s: Seq<char>, sep: char) -> Seq<Seq<char>> {
    let (done, cur) = split_prefix(s, sep, s.len() as int);
    done.push(cur)
}

/// The words of the first `k` characters of `s` (runs of characters that
/// are not white space): the words already closed, and the one still open.
pub open spec fn words_prefix(s: Seq<char>, k: int) -> (Seq<Seq<char>>, Seq<char>)
    decreases k,
{
    if k <= 0 {
        (seq![], seq![])
    } else {
        let (done, cur) = words_prefix(s, k - 1);
        if is_space(s[k - 1]) {
            if cur.len() > 0 {
                (done.push(cur), seq![])
            } else {
                (done, seq![])
            }
        } else {
            (done, cur.push(s[k - 1]))
        }
    }
}

/// The words of `s`, as `str::split_whitespace` gives them.
pub open spec fn words(s: Seq<char>) -> Seq<Seq<char>> {
    let (done, cur) = words_prefix(s, s.len() as int);
    if cur.len() > 0 {
        done.push(cur)
    } else {
        done
    }
}

/// The pieces of `v` between the occurrences of `sep`.
pub fn split_chars(v: &Vec<char>, sep: char) -> (res: Vec<Vec<char>>)
    ensures
        res@.len() == split_on(v@, sep).len(),
        forall|i: int| 0 <= i < res@.len() ==> #[trigger] res@[i]@ == split_on(v@, sep)[i],
{
    let mut done: Vec<Vec<char>> = Vec::new();
    let mut cur: Vec<char> = Vec::new();
    let mut i: usize = 0;
    while i < v.len()
        invariant
            i <= v@.len(),
            done@.len() == split_prefix(v@, sep, i as int).0.len(),
            forall|j: int| 0 <= j < done@.len() ==> #[trigger] done@[j]@ == split_prefix(v@, sep, i as int).0[j],
            cur@ == split_prefix(v@, sep, i as int).1,
        decreases v@.len() - i,
    {
        let c = v[i];
        if c == sep {
            let piece = cur;
            done.push(piece);
            cur = Vec::new();
        } else {
            cur.push(c);
        }
        i = i + 1;
    }
    done.push(cur);
    done
}

/// The words of `v`.
pub fn words_of(v: &Vec<char>) -> (res: Vec<Vec<char>>)
    ensures
        res@.len() == words(v@).len(),
        forall|i: int| 0 <= i < res@.len() ==> #[trigger] res@[i]@ == words(v@)[i],
{
    let mut done: Vec<Vec<char>> = Vec::new();
    let mut cur: Vec<char> = Vec::new();
    let mut i: usize = 0;
    while i < v.len()
        invariant
            i <= v@.len(),
            done@.len() == words_prefix(v@, i as int).0.len(),
            forall|j: int| 0 <= j < done@.len() ==> #[trigger] done@[j]@ == words_prefix(v@, i as int).0[j],
            cur@ == words_prefix(v@, i as int).1,
        decreases v@.len() - i,
    {
        let c = v[i];
        if is_whitespace(c) {
            if cur.len() > 0 {
                let w = cur;
                done.push(w);
                cur = Vec::new();
            }
        } else {
            cur.push(c);
        }
        i = i + 1;
    }
    if cur.len() > 0 {
        done.push(cur);
    }
    done
}

/// The number of white-space characters `s` starts with.
pub open spec fn leading_spaces(s: Seq<char>) -> nat
    decreases s.len(),
{
    if s.len() > 0 && is_space(s[0]) {
        1 + leading_spaces(s.drop_first())
    } else {
        0
    }
}

/// The number of white-space characters `s` ends with.
pub open spec fn trailing_spaces(s: Seq<char>) -> nat
    decreases s.len(),
{
    if s.len() > 0 && is_space(s.last()) {
        1 + trailing_spaces(s.drop_last())
    } else {
        0
    }
}

/// `s` without white space at either end, as `str::trim` gives it.
pub open spec fn trim(s: Seq<char>) -> Seq<char> {
    let t = s.skip(leading_spaces(s) as int);
    t.take(t.len() - trailing_spaces(t))
}

proof fn lemma_leading_bound(s: Seq<char>)
    ensures
        leading_spaces(s) <= s.len(),
    decreases s.len(),
{
    if s.len() > 0 && is_space(s[0]) {
        lemma_leading_bound(s.drop_first());
    }
}

proof fn lemma_trailing_bound(s: Seq<char>)
    ensures
        trailing_spaces(s) <= s.len(),
    decreases s.len(),
{
    if s.len() > 0 && is_space(s.last()) {
        lemma_trailing_bound(s.drop_last());
    }
}

/// `v` without white space at either end.
pub fn trim_chars(v: &Vec<char>) -> (res: Vec<char>)
    ensures
        res@ == trim(v@),
{
    let ghost s = v@;
    let mut start: usize = 0;
    assert(s.skip(0) =~= s);
    while start < v.len() && is_whitespace(v[start])
        invariant
            start <= s.len(),
            s == v@,
            leading_spaces(s) == start + leading_spaces(s.skip(start as int)),
        decreases s.len() - start,
    {
        assert(s.skip(start as int).drop_first() =~= s.skip(start + 1));
        start = start + 1;
    }
    let ghost t = s.skip(start as int);
    assert(leading_spaces(t) == 0);
    let mut end: usize = v.len();
    while end > start && is_whitespace(v[end - 1])
        invariant
            start <= end <= s.len(),
            s == v@,
            t == s.skip(start as int),
            trailing_spaces(t) == (s.len() - end) + trailing_spaces(s.subrange(start as int, end as int)),
        decreases end - start,
    {
        assert(s.subrange(start as int, end as int).drop_last() =~= s.subrange(start as int, end - 1));
        end = end - 1;
    }
    proof {
        lemma_trailing_bound(t);
    }
    let mut res: Vec<char> = Vec::new();
    let mut i: usize = start;
    while i < end
        invariant
            start <= i <= end,
            end <= s.len(),
            s == v@,
            res@ == s.subrange(start as int, i as int),
        decreases end - i,
    {
        res.push(v[i]);
        i = i + 1;
        assert(res@ =~= s.subrange(start as int, i as int));
    }
    assert(res@ =~= trim(s));
    res
}

/// Whether `pat` occurs in `s` at position `i`.
pub open spec fn occurs_at(s: Seq<char>, pat: Seq<char>, i: int) -> bool {
    pat.is_prefix_of(s.skip(i))
}

pub fn matches_at(v: &Vec<char>, pat: &Vec<char>, i: usize) -> (res: bool)
    requires
        i <= v@.len(),
    ensures
        res == occurs_at(v@, pat@, i as int),
{
    if pat.len() > v.len() - i {
        return false;
    }
    let vlen = v.len();
    assert(i + pat@.len() <= v@.len());
    let mut j: usize = 0;
    while j < pat.len()
        invariant
            vlen == v@.len(),
            i + pat@.len() <= v@.len(),
            j <= pat@.len(),
            forall|k: int| 0 <= k < j ==> pat@[k] == v@[i + k],
        decreases pat@.len() - j,
    {
        if pat[j] != v[i + j] {
            assert(v@.skip(i as int)[j as int] == v@[i + j]);
            return false;
        }
        j = j + 1;
    }
    assert(pat@ =~= v@.skip(i as int).subrange(0, pat@.len() as int));
    true
}

/// Whether `pat` occurs in `s` (`str::contains`).
pub open spec fn has_text(s: Seq<char>, pat: Seq<char>) -> bool {
    exists|i: int| 0 <= i <= s.len() && #[trigger] occurs_at(s, pat, i)
}

pub fn contains_text(s: &str, pat: &str) -> (res: bool)
    ensures
        res == has_text(s@, pat@),
{
    let v = chars_of(s);
    let p = chars_of(pat);
    let mut i: usize = 0;
    while i < v.len()
        invariant
            v@ == s@,
            p@ == pat@,
            i <= v@.len(),
            forall|k: int| 0 <= k < i ==> !occurs_at(s@, pat@, k),
        decreases v@.len() - i,
    {
        if matches_at(&v, &p, i) {
            return true;
        }
        i = i + 1;
    }
    if matches_at(&v, &p, v.len()) {
        return true;
    }
    assert forall|k: int| 0 <= k <= s@.len() implies !#[trigger] occurs_at(s@, pat@, k) by {}
    false
}

/// `s` with every occurrence of `pat` (searched left to right, not
/// overlapping) replaced by `rep`, as `str::replace` gives it.
pub open spec fn replace_all(s: Seq<char>, pat: Seq<char>, rep: Seq<char>) -> Seq<char>
    decreases s.len(),
{
    if pat.len() == 0 || s.len() == 0 {
        s
    } else if pat.is_prefix_of(s) {
        rep + replace_all(s.skip(pat.len() as int), pat, rep)
    } else {
        seq![s[0]] + replace_all(s.drop_first(), pat, rep)
    }
}

/// `v` with every occurrence of `pat` replaced by `rep`.
pub fn replace_chars(v: &Vec<char>, pat: &Vec<char>, rep: &Vec<char>) -> (res: Vec<char>)
    requires
        pat@.len() > 0,
    ensures
        res@ == replace_all(v@, pat@, rep@),
{
    let ghost s = v@;
    let mut out: Vec<char> = Vec::new();
    let mut i: usize = 0;
    assert(s.skip(0) =~= s);
    assert(out@ + replace_all(s, pat@, rep@) =~= replace_all(s, pat@, rep@));
    while i < v.len()
        invariant
            i <= s.len(),
            s == v@,
            pat@.len() > 0,
            out@ + replace_all(s.skip(i as int), pat@, rep@) == replace_all(s, pat@, rep@),
        decreases s.len() - i,
    {
        let ghost rest = s.skip(i as int);
        if matches_at(v, pat, i) {
            let mut j: usize = 0;
            let ghost out0 = out@;
            while j < rep.len()
                invariant
                    j <= rep@.len(),
                    out@ == out0 + rep@.take(j as int),
                decreases rep@.len() - j,
            {
                out.push(rep[j]);
                j = j + 1;
                assert(out@ =~= out0 + rep@.take(j as int));
            }
            assert(rep@.take(rep@.len() as int) =~= rep@);
            assert(rest.skip(pat@.len() as int) =~= s.skip(i + pat@.len()));
            assert(out0 + (rep@ + replace_all(s.skip(i + pat@.len()), pat@, rep@))
                =~= out@ + replace_all(s.skip(i + pat@.len()), pat@, rep@));
            i = i + pat.len();
        } else {
            let ghost out0 = out@;
            out.push(v[i]);
            assert(rest.drop_first() =~= s.skip(i + 1));
            assert(out0 + (seq![s[i as int]] + replace_all(s.skip(i + 1), pat@, rep@))
                =~= out@ + replace_all(s.skip(i + 1), pat@, rep@));
            i = i + 1;
        }
    }
    assert(s.skip(i as int) =~= Seq::<char>::empty());
    assert(out@ + Seq::<char>::empty() =~= out@);
    out
}

/// `s` cut at every occurrence of `pat` (searched left to right, not
/// overlapping), as `str::split` with a string pattern gives it.
pub open spec fn split_str(s: Seq<char>, pat: Seq<char>) -> Seq<Seq<char>>
    decreases s.len(),
{
    if s.len() == 0 || pat.len() == 0 {
        seq![s]
    } else if pat.is_prefix_of(s) {
        seq![Seq::<char>::empty()] + split_str(s.skip(pat.len() as int), pat)
    } else {
        let rest = split_str(s.drop_first(), pat);
        rest.update(0, seq![s[0]] + rest[0])
    }
}

proof fn lemma_split_str_nonempty(s: Seq<char>, pat: Seq<char>)
    ensures
        split_str(s, pat).len() > 0,
    decreases s.len(),
{
    if s.len() == 0 || pat.len() == 0 {
    } else if pat.is_prefix_of(s) {
        lemma_split_str_nonempty(s.skip(pat.len() as int), pat);
    } else {
        lemma_split_str_nonempty(s.drop_first(), pat);
    }
}

/// The pieces of `v` between the occurrences of `pat`.
pub fn split_chars_on(v: &Vec<char>, pat: &Vec<char>) -> (res: Vec<Vec<char>>)
    requires
        pat@.len() > 0,
    ensures
        res@.len() == split_str(v@, pat@).len(),
        forall|i: int| 0 <= i < res@.len() ==> #[trigger] res@[i]@ == split_str(v@, pat@)[i],
{
    let ghost s = v@;
    let mut done: Vec<Vec<char>> = Vec::new();
    let mut cur: Vec<char> = Vec::new();
    let mut i: usize = 0;
    proof {
        assert(s.skip(0) =~= s);
        lemma_split_str_nonempty(s, pat@);
        let p = split_str(s, pat@);
        assert(Seq::new(done@.len(), |k: int| done@[k]@) =~= Seq::<Seq<char>>::empty());
        assert(cur@ + p[0] =~= p[0]);
        assert(p =~= Seq::<Seq<char>>::empty() + seq![cur@ + p[0]] + p.drop_first());
    }
    while i < v.len()
        invariant
            i <= s.len(),
            s == v@,
            pat@.len() > 0,
            ({
                let p = split_str(s.skip(i as int), pat@);
                let d = Seq::new(done@.len(), |k: int| done@[k]@);
                &&& p.len() > 0
                &&& split_str(s, pat@) == d + seq![cur@ + p[0]] + p.drop_first()
            }),
        decreases s.len() - i,
    {
        let ghost rest = s.skip(i as int);
        let ghost d0 = Seq::new(done@.len(), |k: int| done@[k]@);
        let ghost cur0 = cur@;
        if matches_at(v, pat, i) {
            assert(rest.skip(pat@.len() as int) =~= s.skip(i + pat@.len()));
            proof {
                lemma_split_str_nonempty(s.skip(i + pat@.len()), pat@);
            }
            let piece = cur;
            done.push(piece);
            cur = Vec::new();
            i = i + pat.len();
            let ghost p2 = split_str(s.skip(i as int), pat@);
            assert(Seq::new(done@.len(), |k: int| done@[k]@) =~= d0.push(cur0));
            assert(split_str(s, pat@) =~= Seq::new(done@.len(), |k: int| done@[k]@) + seq![cur@ + p2[0]] + p2.drop_first());
        } else {
            assert(rest.drop_first() =~= s.skip(i + 1));
            proof {
                lemma_split_str_nonempty(s.skip(i + 1), pat@);
            }
            let ghost p2 = split_str(s.skip(i + 1), pat@);
            assert(rest.len() > 0 && rest[0] == s[i as int]);
            assert(split_str(rest, pat@) == p2.update(0, seq![s[i as int]] + p2[0]));
            cur.push(v[i]);
            i = i + 1;
            assert(Seq::new(done@.len(), |k: int| done@[k]@) =~= d0);
            assert(cur0 + (seq![s[i - 1]] + p2[0]) =~= cur@ + p2[0]);
            assert(p2.update(0, seq![s[i - 1]] + p2[0]).drop_first() =~= p2.drop_first());
            assert(split_str(s, pat@) =~= d0 + seq![cur@ + p2[0]] + p2.drop_first());
        }
    }
    assert(s.skip(i as int) =~= Seq::<char>::empty());
    let ghost d0 = Seq::new(done@.len(), |k: int| done@[k]@);
    let ghost cur0 = cur@;
    done.push(cur);
    assert(Seq::new(done@.len(), |k: int| done@[k]@) =~= d0.push(cur0));
    assert(split_str(s, pat@) =~= d0 + seq![cur0]);
    done
}

/// `s` without `prefix` in front, if it starts with it (`str::strip_prefix`).
pub open spec fn strip_prefix(s: Seq<char>, prefix: Seq<char>) -> Option<Seq<char>> {
    if prefix.is_prefix_of(s) {
        Some(s.skip(prefix.len() as int))
    } else {
        None
    }
}

/// `v` without `prefix` in front, if it starts with it.
pub fn strip_prefix_chars(v: &Vec<char>, prefix: &Vec<char>) -> (res: Option<Vec<char>>)
    ensures
        match res {
            Some(r) => strip_prefix(v@, prefix@) == Some(r@),
            None => strip_prefix(v@, prefix@) is None,
        },
{
    if !matches_at(v, prefix, 0) {
        assert(v@.skip(0) =~= v@);
        return None;
    }
    assert(v@.skip(0) =~= v@);
    let mut res: Vec<char> = Vec::new();
    let mut i: usize = prefix.len();
    while i < v.len()
        invariant
            prefix@.len() <= i <= v@.len(),
            res@ == v@.subrange(prefix@.len() as int, i as int),
        decreases v@.len() - i,
    {
        res.push(v[i]);
        i = i + 1;
        assert(res@ =~= v@.subrange(prefix@.len() as int, i as int));
    }
    assert(res@ =~= v@.skip(prefix@.len() as int));
    Some(res)
}

/// `s` without the first of `prefixes` that it starts with, or `s` itself
/// when it starts with none of them.
pub open spec fn strip_first(s: Seq<char>, prefixes: Seq<Seq<char>>) -> Seq<char>
    decreases prefixes.len(),
{
    if prefixes.len() == 0 {
        s
    } else if prefixes[0].is_prefix_of(s) {
        s.skip(prefixes[0].len() as int)
    } else {
        strip_first(s, prefixes.drop_first())
    }
}

/// The contents of a list of character vectors.
pub open spec fn chars_view(v: Seq<Vec<char>>) -> Seq<Seq<char>> {
    Seq::new(v.len(), |i: int| v[i]@)
}

/// `v` without the first of `prefixes` that it starts with.
pub fn strip_first_of(v: &Vec<char>, prefixes: &Vec<Vec<char>>) -> (res: Vec<char>)
    ensures
        res@ == strip_first(v@, chars_view(prefixes@)),
{
    let ghost ps = chars_view(prefixes@);
    assert(ps.skip(0) =~= ps);
    let mut i: usize = 0;
    while i < prefixes.len()
        invariant
            i <= prefixes@.len(),
            ps == chars_view(prefixes@),
            strip_first(v@, ps) == strip_first(v@, ps.skip(i as int)),
        decreases prefixes@.len() - i,
    {
        let ghost rest = ps.skip(i as int);
        assert(rest[0] == prefixes@[i as int]@);
        assert(rest.drop_first() =~= ps.skip(i + 1));
        match strip_prefix_chars(v, &prefixes[i]) {
            Some(r) => {
                return r;
            },
            None => {},
        }
        i = i + 1;
    }
    assert(ps.skip(i as int).len() == 0);
    copy_all(v)
}

/// A copy of `v`.
pub fn copy_all(v: &Vec<char>) -> (res: Vec<char>)
    ensures
        res@ == v@,
{
    let mut res: Vec<char> = Vec::new();
    let mut i: usize = 0;
    while i < v.len()
        invariant
            i <= v@.len(),
            res@ == v@.take(i as int),
        decreases v@.len() - i,
    {
        res.push(v[i]);
        i = i + 1;
        assert(res@ =~= v@.take(i as int));
    }
    assert(res@ =~= v@);
    res
}

/// `s` without the copies of `c` in front (`str::trim_start_matches`).
pub open spec fn skip_leading(s: Seq<char>, c: char) -> Seq<char>
    decreases s.len(),
{
    if s.len() > 0 && s[0] == c {
        skip_leading(s.drop_first(), c)
    } else {
        s
    }
}

pub fn skip_leading_chars(v: &Vec<char>, c: char) -> (res: Vec<char>)
    ensures
        res@ == skip_leading(v@, c),
{
    let mut i: usize = 0;
    assert(v@.skip(0) =~= v@);
    while i < v.len() && v[i] == c
        invariant
            i <= v@.len(),
            skip_leading(v@, c) == skip_leading(v@.skip(i as int), c),
        decreases v@.len() - i,
    {
        assert(v@.skip(i as int).drop_first() =~= v@.skip(i + 1));
        i = i + 1;
    }
    let mut res: Vec<char> = Vec::new();
    let start = i;
    while i < v.len()
        invariant
            start <= i <= v@.len(),
            res@ == v@.subrange(start as int, i as int),
        decreases v@.len() - i,
    {
        res.push(v[i]);
        i = i + 1;
        assert(res@ =~= v@.subrange(start as int, i as int));
    }
    assert(res@ =~= v@.skip(start as int));
    res
}

/// Appends the characters `v`.
pub fn push_chars(s: &mut String, v: &Vec<char>)
    ensures
        final(s)@ == old(s)@ + v@,
{
    let mut i: usize = 0;
    while i < v.len()
        invariant
            i <= v@.len(),
            s@ == old(s)@ + v@.take(i as int),
        decreases v@.len() - i,
    {
        push_char(s, v[i]);
        i = i + 1;
        assert(s@ =~= old(s)@ + v@.take(i as int));
    }
    assert(v@.take(v@.len() as int) =~= v@);
}

/// Whether `c` is one of `0` to `9`.
pub open spec fn is_digit(c: char) -> bool {
    '0' <= c && c <= '9'
}

/// The digits of `s`, in order.
pub open spec fn keep_digits(s: Seq<char>) -> Seq<char>
    decreases s.len(),
{
    if s.len() == 0 {
        seq![]
    } else {
        keep_digits(s.drop_last()) + if is_digit(s.last()) { seq![s.last()] } else { seq![] }
    }
}

/// The number written by the digits `s` in decimal.
pub open spec fn digits_value(s: Seq<char>) -> nat
    decreases s.len(),
{
    if s.len() == 0 {
        0
    } else {
        digits_value(s.drop_last()) * 10 + ((s.last() as nat) - 48) as nat
    }
}

/// What `str::parse::<usize>` gives for a string of digits: nothing for
/// the empty string or a number above `usize::MAX`.
pub open spec fn parse_digits(s: Seq<char>) -> Option<usize> {
    if s.len() == 0 || digits_value(s) > usize::MAX {
        None
    } else {
        Some(digits_value(s) as usize)
    }
}

/// A single digit reads as its value.
pub proof fn law_one_digit_reads_as_its_value(d: char)
    requires
        is_digit(d),
    ensures
        parse_digits(seq![d]) == Some((d as int - 48) as usize),
{
    let s = seq![d];
    assert(s.drop_last() =~= Seq::<char>::empty());
    assert(digits_value(s.drop_last()) == 0);
    assert(s.last() == d);
    assert(48 <= d as int <= 57);
    assert(digits_value(s) == ((d as nat) - 48) as nat);
    assert(digits_value(s) == d as int - 48);
}

/// Writing one more digit after a number multiplies it by ten and adds the
/// digit, while the result is a `usize`; past that nothing is read.
pub proof fn law_next_digit_shifts_the_number(s: Seq<char>, d: char, v: usize)
    requires
        is_digit(d),
        parse_digits(s) == Some(v),
    ensures
        v * 10 + (d as int - 48) <= usize::MAX ==> parse_digits(s.push(d)) == Some((v * 10 + (d as int - 48)) as usize),
        v * 10 + (d as int - 48) > usize::MAX ==> parse_digits(s.push(d)) is None,
{
    assert(s.push(d).drop_last() =~= s);
}

/// Nothing is read from no digits.
pub proof fn law_no_digits_read_nothing()
    ensures
        parse_digits(Seq::<char>::empty()) is None,
{
}

/// The digits of `v`, in order.
pub fn keep_digit_chars(v: &Vec<char>) -> (res: Vec<char>)
    ensures
        res@ == keep_digits(v@),
{
    let mut res: Vec<char> = Vec::new();
    let mut i: usize = 0;
    while i < v.len()
        invariant
            i <= v@.len(),
            res@ == keep_digits(v@.take(i as int)),
        decreases v@.len() - i,
    {
        assert(v@.take(i + 1).drop_last() =~= v@.take(i as int));
        let c = v[i];
        if '0' <= c && c <= '9' {
            res.push(c);
        }
        i = i + 1;
    }
    assert(v@.take(v@.len() as int) =~= v@);
    res
}

proof fn lemma_digits_value_grows(s: Seq<char>, k: int)
    requires
        0 <= k <= s.len(),
    ensures
        digits_value(s.take(k)) <= digits_value(s),
    decreases s.len() - k,
{
    if k < s.len() {
        lemma_digits_value_grows(s, k + 1);
        assert(s.take(k + 1).drop_last() =~= s.take(k));
    } else {
        assert(s.take(k) =~= s);
    }
}

/// The number written by the digits `v`, if it is a `usize`.
pub fn parse_digit_chars(v: &Vec<char>) -> (res: Option<usize>)
    requires
        forall|i: int| 0 <= i < v@.len() ==> is_digit(#[trigger] v@[i]),
    ensures
        res == parse_digits(v@),
{
    if v.len() == 0 {
        return None;
    }
    let mut value: usize = 0;
    let mut i: usize = 0;
    while i < v.len()
        invariant
            i <= v@.len(),
            forall|j: int| 0 <= j < v@.len() ==> is_digit(#[trigger] v@[j]),
            value == digits_value(v@.take(i as int)),
        decreases v@.len() - i,
    {
        assert(v@.take(i + 1).drop_last() =~= v@.take(i as int));
        assert(is_digit(v@[i as int]));
        let d = (v[i] as u32 - 48) as usize;
        let next = match value.checked_mul(10) {
            Some(t) => t.checked_add(d),
            None => None,
        };
        match next {
            Some(n) => {
                value = n;
            },
            None => {
                proof {
                    lemma_digits_value_grows(v@, i + 1);
                }
                return None;
            },
        }
        i = i + 1;
    }
    assert(v@.take(v@.len() as int) =~= v@);
    Some(value)
}

} // verus!
