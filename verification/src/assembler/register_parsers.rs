//! Registers: `$` and the register's number, such as `$3`.
use vstd::prelude::*;

use super::scanner::{
    chars_of, digits_value, lemma_span_end_bounds, read_number, scan, skip_ws, span_end, CharClass,
};
use super::{finish_token, token_parsed, token_result_view, ParseError, Token, TokenView};

verus! {

/// A register operand at `p`: optional whitespace, `$`, optional whitespace, a
/// decimal number of at most 255, and any whitespace after it.
pub open spec fn spec_register(s: Seq<char>, p: int) -> Option<(int, TokenView)> {
    let q = skip_ws(s, p);
    if q < s.len() && s[q] == '$' {
        let d = skip_ws(s, q + 1);
        let e = span_end(s, d, CharClass::Digit);
        let v = digits_value(s.subrange(d, e));
        if e > d && v <= 255 {
            Some((skip_ws(s, e), TokenView::Register { reg_num: v as u8 }))
        } else {
            None
        }
    } else {
        None
    }
}

/// Reads a register at position `p` of `cs`.
pub fn parse_register(cs: &Vec<char>, p: usize) -> (r: Option<(usize, Token)>)
    requires
        p <= cs@.len(),
    ensures
        token_result_view(r) == spec_register(cs@, p as int),
        r matches Some((q, _)) ==> p < q <= cs@.len(),
{
    let q = scan(cs, p, CharClass::Space);
    if q < cs.len() && cs[q] == '$' {
        let d = scan(cs, q + 1, CharClass::Space);
        let e = scan(cs, d, CharClass::Digit);
        proof {
            lemma_span_end_bounds(cs@, d as int, CharClass::Digit);
        }
        if e > d {
            match read_number(cs, d, e, 255) {
                Some(v) => {
                    let after = scan(cs, e, CharClass::Space);
                    Some((after, Token::Register { reg_num: v as u8 }))
                },
                None => None,
            }
        } else {
            None
        }
    } else {
        None
    }
}

/// Parses a register at the start of `input`; gives the rest of the input and
/// the register.
pub fn register(input: &str) -> (r: Result<(&str, Token), ParseError>)
    ensures
        token_parsed(r, input@, spec_register(input@, 0)),
{
    let cs = chars_of(input);
    let t = parse_register(&cs, 0);
    finish_token(input, cs.len(), t)
}

} // verus!
