//! Character classes and scanning over the characters of an assembly source.
use vstd::prelude::*;

verus! {

/// The classes of characters that the grammar's lexical rules run over.
#[derive(Clone, Copy, PartialEq, Eq, Debug)]
pub enum CharClass {
    /// space, tab, carriage return, line feed
    Space,
    /// `0` to `9`
    Digit,
    /// ASCII letters
    Alpha,
    /// ASCII letters and digits
    AlphaNumeric,
    /// anything but a single quote
    NotQuote,
    /// Unicode whitespace, as `char::is_whitespace` counts it
    UnicodeSpace,
}

/// Whitespace: space, tab, carriage return, line feed.
pub open spec fn is_space(c: char) -> bool {
    c == ' ' || c == '\t' || c == '\r' || c == '\n'
}

/// A decimal digit.
pub open spec fn is_digit(c: char) -> bool {
    '0' <= c && c <= '9'
}

/// An ASCII letter.
pub open spec fn is_alpha(c: char) -> bool {
    ('a' <= c && c <= 'z') || ('A' <= c && c <= 'Z')
}

/// Unicode whitespace: the characters with the `White_Space` property.
pub open spec fn is_unicode_space(c: char) -> bool {
    ('\u{9}' <= c && c <= '\u{d}') || c == ' ' || c == '\u{85}' || c == '\u{a0}' || c
        == '\u{1680}' || ('\u{2000}' <= c && c <= '\u{200a}') || c == '\u{2028}' || c
        == '\u{2029}' || c == '\u{202f}' || c == '\u{205f}' || c == '\u{3000}'
}

/// Whether `c` belongs to class `k`.
pub open spec fn in_class(k: CharClass, c: char) -> bool {
    match k {
        CharClass::Space => is_space(c),
        CharClass::Digit => is_digit(c),
        CharClass::Alpha => is_alpha(c),
        CharClass::AlphaNumeric => is_alpha(c) || is_digit(c),
        CharClass::NotQuote => c != '\'',
        CharClass::UnicodeSpace => is_unicode_space(c),
    }
}

/// The first position at or after `p` whose character is not in class `k`
/// (the length of `s` when the rest of `s` is in the class).
pub open spec fn span_end(s: Seq<char>, p: int, k: CharClass) -> int
    decreases s.len() - p,
{
    if 0 <= p < s.len() && in_class(k, s[p]) {
        span_end(s, p + 1, k)
    } else {
        p
    }
}

/// The position after the whitespace that starts at `p`.
pub open spec fn skip_ws(s: Seq<char>, p: int) -> int {
    span_end(s, p, CharClass::Space)
}

/// The value of a decimal numeral, read left to right.
pub open spec fn digits_value(d: Seq<char>) -> int
    decreases d.len(),
{
    if d.len() == 0 {
        0
    } else {
        digits_value(d.drop_last()) * 10 + ((d.last() as int) - ('0' as int))
    }
}

/// A scan ends within the text, past only characters of its class.
pub proof fn lemma_span_end_bounds(s: Seq<char>, p: int, k: CharClass)
    requires
        0 <= p <= s.len(),
    ensures
        p <= span_end(s, p, k) <= s.len(),
        forall|i: int| p <= i < span_end(s, p, k) ==> in_class(k, #[trigger] s[i]),
        span_end(s, p, k) < s.len() ==> !in_class(k, s[span_end(s, p, k)]),
    decreases s.len() - p,
{
    if p < s.len() && in_class(k, s[p]) {
        lemma_span_end_bounds(s, p + 1, k);
    }
}

/// A blank between tokens: a space, a tab, a carriage return or a line feed.
pub open spec fn is_blank(c: char) -> bool {
    c == ' ' || c == '\t' || c == '\r' || c == '\n'
}

/// Skipping whitespace from `p` passes every space, tab, carriage return and
/// line feed and stops at the first other character (or at the end): so a
/// tab or a line end at `p` is always skipped.
pub proof fn law_skip_ws_passes_blanks(s: Seq<char>, p: int)
    requires
        0 <= p <= s.len(),
    ensures
        p <= skip_ws(s, p) <= s.len(),
        forall|i: int| p <= i < skip_ws(s, p) ==> is_blank(#[trigger] s[i]),
        skip_ws(s, p) < s.len() ==> !is_blank(s[skip_ws(s, p)]),
        p < s.len() && is_blank(s[p]) ==> skip_ws(s, p) > p,
{
    lemma_span_end_bounds(s, p, CharClass::Space);
}

/// Which blank separates two tokens does not matter: two texts that differ
/// only where both hold blanks (a tab for a space, a CRLF for a space and a
/// LF) skip to the same position.
pub proof fn law_skip_ws_ignores_which_blank(s: Seq<char>, t: Seq<char>, p: int)
    requires
        0 <= p <= s.len(),
        s.len() == t.len(),
        forall|i: int| 0 <= i < s.len() && s[i] != t[i] ==> is_blank(s[i]) && is_blank(t[i]),
    ensures
        skip_ws(s, p) == skip_ws(t, p),
    decreases s.len() - p,
{
    if p < s.len() {
        if is_blank(s[p]) {
            law_skip_ws_ignores_which_blank(s, t, p + 1);
        } else {
            assert(s[p] == t[p]);
        }
    }
}

/// Digits only add to a numeral's value as more of them are read.
pub proof fn lemma_digits_value_grows(d: Seq<char>, n: int)
    requires
        0 <= n <= d.len(),
        forall|i: int| 0 <= i < d.len() ==> is_digit(#[trigger] d[i]),
    ensures
        0 <= digits_value(d.subrange(0, n)) <= digits_value(d),
    decreases d.len() - n,
{
    if n < d.len() {
        lemma_digits_value_grows(d, n + 1);
        let a = d.subrange(0, n + 1);
        assert(a.drop_last() =~= d.subrange(0, n));
        assert(is_digit(a.last()));
        lemma_digits_value_nonneg(d.subrange(0, n));
    } else {
        assert(d.subrange(0, n) =~= d);
        lemma_digits_value_nonneg(d);
    }
}

/// A numeral's value is not negative.
pub proof fn lemma_digits_value_nonneg(d: Seq<char>)
    requires
        forall|i: int| 0 <= i < d.len() ==> is_digit(#[trigger] d[i]),
    ensures
        0 <= digits_value(d),
    decreases d.len(),
{
    if d.len() > 0 {
        assert(is_digit(d[d.len() - 1]));
        lemma_digits_value_nonneg(d.drop_last());
    }
}

/// Whether character `c` is in class `k`.
pub fn char_in_class(k: CharClass, c: char) -> (r: bool)
    ensures
        r == in_class(k, c),
{
    match k {
        CharClass::Space => c == ' ' || c == '\t' || c == '\r' || c == '\n',
        CharClass::Digit => '0' <= c && c <= '9',
        CharClass::Alpha => ('a' <= c && c <= 'z') || ('A' <= c && c <= 'Z'),
        CharClass::AlphaNumeric => ('a' <= c && c <= 'z') || ('A' <= c && c <= 'Z') || ('0' <= c
            && c <= '9'),
        CharClass::NotQuote => c != '\'',
        CharClass::UnicodeSpace => ('\u{9}' <= c && c <= '\u{d}') || c == ' ' || c == '\u{85}'
            || c == '\u{a0}' || c == '\u{1680}' || ('\u{2000}' <= c && c <= '\u{200a}') || c
            == '\u{2028}' || c == '\u{2029}' || c == '\u{202f}' || c == '\u{205f}' || c
            == '\u{3000}',
    }
}

/// Scans from `p` over the characters of class `k`.
pub fn scan(cs: &Vec<char>, p: usize, k: CharClass) -> (r: usize)
    requires
        p <= cs@.len(),
    ensures
        r == span_end(cs@, p as int, k),
        p <= r <= cs@.len(),
{
    let mut i = p;
    while i < cs.len() && char_in_class(k, cs[i])
        invariant
            p <= i <= cs@.len(),
            span_end(cs@, i as int, k) == span_end(cs@, p as int, k),
        decreases cs@.len() - i,
    {
        i = i + 1;
    }
    proof {
        lemma_span_end_bounds(cs@, p as int, k);
    }
    i
}

/// The characters of `input`, one by one.
pub fn chars_of(input: &str) -> (cs: Vec<char>)
    ensures
        cs@ == input@,
{
    let n = input.unicode_len();
    let mut cs: Vec<char> = Vec::new();
    let mut i: usize = 0;
    while i < n
        invariant
            n == input@.len(),
            i <= n,
            cs@ == input@.subrange(0, i as int),
        decreases n - i,
    {
        let c = input.get_char(i);
        cs.push(c);
        i = i + 1;
    }
    cs
}

/// Reads the decimal numeral `cs[a..b]`, or `None` when its value exceeds `limit`.
pub fn read_number(cs: &Vec<char>, a: usize, b: usize, limit: u64) -> (r: Option<u64>)
    requires
        a <= b <= cs@.len(),
        forall|i: int| a <= i < b ==> is_digit(#[trigger] cs@[i]),
    ensures
        match r {
            Some(v) => v == digits_value(cs@.subrange(a as int, b as int)) && v <= limit,
            None => digits_value(cs@.subrange(a as int, b as int)) > limit,
        },
{
    let ghost d = cs@.subrange(a as int, b as int);
    let mut v: u64 = 0;
    let mut i = a;
    while i < b
        invariant
            a <= i <= b <= cs@.len(),
            d == cs@.subrange(a as int, b as int),
            forall|j: int| a <= j < b ==> is_digit(#[trigger] cs@[j]),
            v == digits_value(cs@.subrange(a as int, i as int)),
            v <= limit,
        decreases b - i,
    {
        let c = cs[i];
        assert(is_digit(cs@[i as int]));
        let dv: u64 = ((c as u32) - ('0' as u32)) as u64;
        assert(cs@.subrange(a as int, i + 1).drop_last() =~= cs@.subrange(a as int, i as int));
        if dv > limit || v > (limit - dv) / 10 {
            proof {
                assert(d.subrange(0, (i + 1 - a) as int) =~= cs@.subrange(a as int, i + 1));
                lemma_digits_value_grows(d, (i + 1 - a) as int);
            }
            return None;
        }
        v = v * 10 + dv;
        i = i + 1;
    }
    Some(v)
}

} // verus!
