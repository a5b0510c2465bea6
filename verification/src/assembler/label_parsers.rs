//! Labels: declared as `name:` in front of an instruction, used as `@name`.
use vstd::prelude::*;

use super::scanner::{chars_of, scan, skip_ws, span_end, CharClass};
use super::{finish_token, token_parsed, token_result_view, ParseError, Token, TokenView};

verus! {

/// The characters `input[a..b]` as a string.
pub fn make_name(input: &str, a: usize, b: usize) -> (r: String)
    requires
        a <= b <= input@.len(),
    ensures
        r@ == input@.subrange(a as int, b as int),
{
    input.substring_char(a, b).to_owned()
}

/// A label declaration at `p`: optional whitespace, letters and digits, `:`,
/// and any whitespace after it.
pub open spec fn spec_label_declaration(s: Seq<char>, p: int) -> Option<(int, TokenView)> {
    let q = skip_ws(s, p);
    let e = span_end(s, q, CharClass::AlphaNumeric);
    if e > q && e < s.len() && s[e] == ':' {
        Some((skip_ws(s, e + 1), TokenView::LabelDeclaration { name: s.subrange(q, e) }))
    } else {
        None
    }
}

/// A label usage at `p`: optional whitespace, `@`, optional whitespace, letters
/// and digits, and any whitespace after them.
pub open spec fn spec_label_usage(s: Seq<char>, p: int) -> Option<(int, TokenView)> {
    let q = skip_ws(s, p);
    if q < s.len() && s[q] == '@' {
        let d = skip_ws(s, q + 1);
        let e = span_end(s, d, CharClass::AlphaNumeric);
        if e > d {
            Some((skip_ws(s, e), TokenView::LabelUsage { name: s.subrange(d, e) }))
        } else {
            None
        }
    } else {
        None
    }
}

/// Reads a label declaration at position `p` of `cs`, the characters of `input`.
pub fn parse_label_declaration(input: &str, cs: &Vec<char>, p: usize) -> (r: Option<
    (usize, Token),
>)
    requires
        cs@ == input@,
        p <= cs@.len(),
    ensures
        token_result_view(r) == spec_label_declaration(cs@, p as int),
        r matches Some((q, _)) ==> p < q <= cs@.len(),
{
    let q = scan(cs, p, CharClass::Space);
    let e = scan(cs, q, CharClass::AlphaNumeric);
    if e > q && e < cs.len() && cs[e] == ':' {
        let after = scan(cs, e + 1, CharClass::Space);
        Some((after, Token::LabelDeclaration { name: make_name(input, q, e) }))
    } else {
        None
    }
}

/// Reads a label usage at position `p` of `cs`, the characters of `input`.
pub fn parse_label_usage(input: &str, cs: &Vec<char>, p: usize) -> (r: Option<(usize, Token)>)
    requires
        cs@ == input@,
        p <= cs@.len(),
    ensures
        token_result_view(r) == spec_label_usage(cs@, p as int),
        r matches Some((q, _)) ==> p < q <= cs@.len(),
{
    let q = scan(cs, p, CharClass::Space);
    if q < cs.len() && cs[q] == '@' {
        let d = scan(cs, q + 1, CharClass::Space);
        let e = scan(cs, d, CharClass::AlphaNumeric);
        if e > d {
            let after = scan(cs, e, CharClass::Space);
            Some((after, Token::LabelUsage { name: make_name(input, d, e) }))
        } else {
            None
        }
    } else {
        None
    }
}

/// Parses a label declaration at the start of `input`.
pub fn label_declaration(input: &str) -> (r: Result<(&str, Token), ParseError>)
    ensures
        token_parsed(r, input@, spec_label_declaration(input@, 0)),
{
    let cs = chars_of(input);
    let t = parse_label_declaration(input, &cs, 0);
    finish_token(input, cs.len(), t)
}

/// Parses a label usage at the start of `input`.
pub fn label_usage(input: &str) -> (r: Result<(&str, Token), ParseError>)
    ensures
        token_parsed(r, input@, spec_label_usage(input@, 0)),
{
    let cs = chars_of(input);
    let t = parse_label_usage(input, &cs, 0);
    finish_token(input, cs.len(), t)
}

} // verus!
