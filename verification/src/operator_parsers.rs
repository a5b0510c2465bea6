//! The four arithmetic operators of expressions.
use vstd::prelude::*;

use crate::assembler::scanner::{scan, skip_ws, CharClass};
use crate::token::{ExprView, Token};

verus! {

/// The operator written as `c`, with whitespace around it.
pub open spec fn spec_operator(s: Seq<char>, p: int, c: char, t: ExprView) -> Option<
    (int, ExprView),
> {
    let q = skip_ws(s, p);
    if q < s.len() && s[q] == c {
        Some((skip_ws(s, q + 1), t))
    } else {
        None
    }
}

/// `+` or `-`.
pub open spec fn spec_additive_operator(s: Seq<char>, p: int) -> Option<(int, ExprView)> {
    if spec_operator(s, p, '+', ExprView::AdditionnOperator) is Some {
        spec_operator(s, p, '+', ExprView::AdditionnOperator)
    } else {
        spec_operator(s, p, '-', ExprView::SubtractionOperator)
    }
}

/// `*` or `/`.
pub open spec fn spec_multiplicative_operator(s: Seq<char>, p: int) -> Option<(int, ExprView)> {
    if spec_operator(s, p, '*', ExprView::MultiplicationOperator) is Some {
        spec_operator(s, p, '*', ExprView::MultiplicationOperator)
    } else {
        spec_operator(s, p, '/', ExprView::DivisionOperator)
    }
}

/// What an expression rule gives: the position after the token, and the token.
pub open spec fn expr_result_view(r: Option<(usize, Token)>) -> Option<(int, ExprView)> {
    match r {
        Some((q, t)) => Some((q as int, t@)),
        None => None,
    }
}

/// Reads `+` or `-` at position `p` of `cs`.
pub fn parse_additive_operator(cs: &Vec<char>, p: usize) -> (r: Option<(usize, Token)>)
    requires
        p <= cs@.len(),
    ensures
        expr_result_view(r) == spec_additive_operator(cs@, p as int),
        r matches Some((q, _)) ==> p < q <= cs@.len(),
{
    let q = scan(cs, p, CharClass::Space);
    if q < cs.len() && cs[q] == '+' {
        Some((scan(cs, q + 1, CharClass::Space), Token::AdditionnOperator))
    } else if q < cs.len() && cs[q] == '-' {
        Some((scan(cs, q + 1, CharClass::Space), Token::SubtractionOperator))
    } else {
        None
    }
}

/// Reads `*` or `/` at position `p` of `cs`.
pub fn parse_multiplicative_operator(cs: &Vec<char>, p: usize) -> (r: Option<(usize, Token)>)
    requires
        p <= cs@.len(),
    ensures
        expr_result_view(r) == spec_multiplicative_operator(cs@, p as int),
        r matches Some((q, _)) ==> p < q <= cs@.len(),
{
    let q = scan(cs, p, CharClass::Space);
    if q < cs.len() && cs[q] == '*' {
        Some((scan(cs, q + 1, CharClass::Space), Token::MultiplicationOperator))
    } else if q < cs.len() && cs[q] == '/' {
        Some((scan(cs, q + 1, CharClass::Space), Token::DivisionOperator))
    } else {
        None
    }
}

} // verus!
