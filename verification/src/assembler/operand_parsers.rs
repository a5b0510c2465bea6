//! Operands: integers (`#100`), label usages (`@name`), registers (`$1`) and
//! strings in single quotes (`'Hello'`).
use vstd::prelude::*;

use super::label_parsers::{make_name, parse_label_usage, spec_label_usage};
use super::register_parsers::{parse_register, spec_register};
use super::scanner::{
    chars_of, digits_value, lemma_span_end_bounds, read_number, scan, skip_ws, span_end, CharClass,
};
use super::{finish_token, token_parsed, token_result_view, ParseError, Token, TokenView};

verus! {

/// An integer operand at `p`: optional whitespace, `#`, optional whitespace, a
/// decimal number that fits in an `i32`, and any whitespace after it.
pub open spec fn spec_integer_operand(s: Seq<char>, p: int) -> Option<(int, TokenView)> {
    let q = skip_ws(s, p);
    if q < s.len() && s[q] == '#' {
        let d = skip_ws(s, q + 1);
        let e = span_end(s, d, CharClass::Digit);
        let v = digits_value(s.subrange(d, e));
        if e > d && v <= i32::MAX {
            Some((skip_ws(s, e), TokenView::IntegerOperand { value: v as i32 }))
        } else {
            None
        }
    } else {
        None
    }
}

/// A string operand at `p`: optional whitespace, `'`, any characters but `'`,
/// a closing `'`, and any whitespace after it.
pub open spec fn spec_irstring(s: Seq<char>, p: int) -> Option<(int, TokenView)> {
    let q = skip_ws(s, p);
    if q < s.len() && s[q] == '\'' {
        let e = span_end(s, q + 1, CharClass::NotQuote);
        if e < s.len() {
            Some((skip_ws(s, e + 1), TokenView::IrString { name: s.subrange(q + 1, e) }))
        } else {
            None
        }
    } else {
        None
    }
}

/// An operand at `p`: the first of an integer, a label usage, a register and a
/// string that matches.
pub open spec fn spec_operand(s: Seq<char>, p: int) -> Option<(int, TokenView)> {
    if spec_integer_operand(s, p) is Some {
        spec_integer_operand(s, p)
    } else if spec_label_usage(s, p) is Some {
        spec_label_usage(s, p)
    } else if spec_register(s, p) is Some {
        spec_register(s, p)
    } else {
        spec_irstring(s, p)
    }
}

/// Reads an integer operand at position `p` of `cs`.
pub fn parse_integer_operand(cs: &Vec<char>, p: usize) -> (r: Option<(usize, Token)>)
    requires
        p <= cs@.len(),
    ensures
        token_result_view(r) == spec_integer_operand(cs@, p as int),
        r matches Some((q, _)) ==> p < q <= cs@.len(),
{
    let q = scan(cs, p, CharClass::Space);
    if q < cs.len() && cs[q] == '#' {
        let d = scan(cs, q + 1, CharClass::Space);
        let e = scan(cs, d, CharClass::Digit);
        proof {
            lemma_span_end_bounds(cs@, d as int, CharClass::Digit);
        }
        if e > d {
            match read_number(cs, d, e, 0x7fff_ffff) {
                Some(v) => {
                    let after = scan(cs, e, CharClass::Space);
                    Some((after, Token::IntegerOperand { value: v as i32 }))
                },
                None => None,
            }
        } else {
            None
        }
    } else {
        None
    }
}

/// Reads a string operand at position `p` of `cs`, the characters of `input`.
pub fn parse_irstring(input: &str, cs: &Vec<char>, p: usize) -> (r: Option<(usize, Token)>)
    requires
        cs@ == input@,
        p <= cs@.len(),
    ensures
        token_result_view(r) == spec_irstring(cs@, p as int),
        r matches Some((q, _)) ==> p < q <= cs@.len(),
{
    let q = scan(cs, p, CharClass::Space);
    if q < cs.len() && cs[q] == '\'' {
        let e = scan(cs, q + 1, CharClass::NotQuote);
        if e < cs.len() {
            let after = scan(cs, e + 1, CharClass::Space);
            Some((after, Token::IrString { name: make_name(input, q + 1, e) }))
        } else {
            None
        }
    } else {
        None
    }
}

/// Reads an operand at position `p` of `cs`, the characters of `input`.
pub fn parse_operand(input: &str, cs: &Vec<char>, p: usize) -> (r: Option<(usize, Token)>)
    requires
        cs@ == input@,
        p <= cs@.len(),
    ensures
        token_result_view(r) == spec_operand(cs@, p as int),
        r matches Some((q, _)) ==> p < q <= cs@.len(),
{
    let r = parse_integer_operand(cs, p);
    if r.is_some() {
        return r;
    }
    let r = parse_label_usage(input, cs, p);
    if r.is_some() {
        return r;
    }
    let r = parse_register(cs, p);
    if r.is_some() {
        return r;
    }
    parse_irstring(input, cs, p)
}

/// Parses an integer operand at the start of `input`.
pub fn integer_operand(input: &str) -> (r: Result<(&str, Token), ParseError>)
    ensures
        token_parsed(r, input@, spec_integer_operand(input@, 0)),
{
    let cs = chars_of(input);
    let t = parse_integer_operand(&cs, 0);
    finish_token(input, cs.len(), t)
}

/// Parses a string operand at the start of `input`.
pub fn irstring(input: &str) -> (r: Result<(&str, Token), ParseError>)
    ensures
        token_parsed(r, input@, spec_irstring(input@, 0)),
{
    let cs = chars_of(input);
    let t = parse_irstring(input, &cs, 0);
    finish_token(input, cs.len(), t)
}

/// Parses an operand at the start of `input`.
pub fn operand(input: &str) -> (r: Result<(&str, Token), ParseError>)
    ensures
        token_parsed(r, input@, spec_operand(input@, 0)),
{
    let cs = chars_of(input);
    let t = parse_operand(input, &cs, 0);
    finish_token(input, cs.len(), t)
}

} // verus!
