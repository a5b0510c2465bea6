//! Arithmetic expressions: numbers, parenthesised expressions, and the four
//! operators, `*` and `/` binding tighter than `+` and `-`.
use vstd::prelude::*;

use crate::assembler::label_parsers::make_name;
use crate::assembler::scanner::{
    chars_of, digits_value, lemma_span_end_bounds, read_number, scan, skip_ws, span_end, CharClass,
};
use crate::assembler::ParseError;
use crate::operator_parsers::{
    expr_result_view, parse_additive_operator, parse_multiplicative_operator,
    spec_additive_operator, spec_multiplicative_operator,
};
use crate::token::{pairs_view, ExprView, Token};

verus! {

/// The position after an optional `-` at `q`.
pub open spec fn sign_end(s: Seq<char>, q: int) -> int {
    if 0 <= q < s.len() && s[q] == '-' {
        q + 1
    } else {
        q
    }
}

/// An integer at `p`: optional whitespace, an optional `-`, decimal digits
/// whose value fits in an `i64`, and any whitespace after them.
pub open spec fn spec_integer(s: Seq<char>, p: int) -> Option<(int, ExprView)> {
    let q = skip_ws(s, p);
    let d = sign_end(s, q);
    let e = span_end(s, d, CharClass::Digit);
    let v = digits_value(s.subrange(d, e));
    let neg = d > q;
    if e > d && (if neg {
        v <= 0x8000_0000_0000_0000
    } else {
        v <= 0x7fff_ffff_ffff_ffff
    }) {
        Some(
            (
                skip_ws(s, e),
                ExprView::Integer {
                    value: (if neg {
                        -v
                    } else {
                        v
                    }) as i64,
                },
            ),
        )
    } else {
        None
    }
}

/// A float literal at `p`: optional whitespace, an optional `-`, digits, `.`,
/// digits, and any whitespace after them; the token keeps the literal's text.
pub open spec fn spec_float(s: Seq<char>, p: int) -> Option<(int, ExprView)> {
    let q = skip_ws(s, p);
    let d = sign_end(s, q);
    let e = span_end(s, d, CharClass::Digit);
    if e > d && e < s.len() && s[e] == '.' {
        let f = span_end(s, e + 1, CharClass::Digit);
        if f > e + 1 {
            Some((skip_ws(s, f), ExprView::Float { value: s.subrange(q, f) }))
        } else {
            None
        }
    } else {
        None
    }
}

/// A factor at `p`: a float, an integer, or an expression in parentheses.
pub open spec fn spec_factor(s: Seq<char>, p: int) -> Option<(int, ExprView)>
    decreases s.len() - p, 1int,
{
    match spec_float(s, p) {
        Some((q, f)) => Some((q, ExprView::Factor { value: Box::new(f) })),
        None => match spec_integer(s, p) {
            Some((q, i)) => Some((q, ExprView::Factor { value: Box::new(i) })),
            None => {
                let q = skip_ws(s, p);
                if p <= q < s.len() && s[q] == '(' {
                    match spec_expression(s, q + 1) {
                        Some((r, e)) => {
                            let t = skip_ws(s, r);
                            if 0 <= t < s.len() && s[t] == ')' {
                                Some((skip_ws(s, t + 1), ExprView::Factor { value: Box::new(e) }))
                            } else {
                                None
                            }
                        },
                        None => None,
                    }
                } else {
                    None
                }
            },
        },
    }
}

/// The `*` and `/` operators with their factors that follow position `q`.
pub open spec fn spec_term_tail(s: Seq<char>, q: int) -> (int, Seq<(ExprView, ExprView)>)
    decreases s.len() - q, 0int,
{
    match spec_multiplicative_operator(s, q) {
        Some((o, op)) => if q < o <= s.len() {
            match spec_factor(s, o) {
                Some((r, f)) => if o < r <= s.len() {
                    let (z, rest) = spec_term_tail(s, r);
                    (z, seq![(op, f)] + rest)
                } else {
                    (q, Seq::empty())
                },
                None => (q, Seq::empty()),
            }
        } else {
            (q, Seq::empty())
        },
        None => (q, Seq::empty()),
    }
}

/// A term at `p`: a factor, then any number of `*` or `/` and a factor.
pub open spec fn spec_term(s: Seq<char>, p: int) -> Option<(int, ExprView)>
    decreases s.len() - p, 2int,
{
    match spec_factor(s, p) {
        Some((q, f)) => if p < q <= s.len() {
            let (r, rest) = spec_term_tail(s, q);
            Some((r, ExprView::Term { left: Box::new(f), right: rest }))
        } else {
            None
        },
        None => None,
    }
}

/// The `+` and `-` operators with their terms that follow position `q`.
pub open spec fn spec_expression_tail(s: Seq<char>, q: int) -> (int, Seq<(ExprView, ExprView)>)
    decreases s.len() - q, 0int,
{
    match spec_additive_operator(s, q) {
        Some((o, op)) => if q < o <= s.len() {
            match spec_term(s, o) {
                Some((r, t)) => if o < r <= s.len() {
                    let (z, rest) = spec_expression_tail(s, r);
                    (z, seq![(op, t)] + rest)
                } else {
                    (q, Seq::empty())
                },
                None => (q, Seq::empty()),
            }
        } else {
            (q, Seq::empty())
        },
        None => (q, Seq::empty()),
    }
}

/// An expression at `p`: a term, then any number of `+` or `-` and a term.
pub open spec fn spec_expression(s: Seq<char>, p: int) -> Option<(int, ExprView)>
    decreases s.len() - p, 3int,
{
    match spec_term(s, p) {
        Some((q, t)) => if p < q <= s.len() {
            let (r, rest) = spec_expression_tail(s, q);
            Some((r, ExprView::Expression { left: Box::new(t), right: rest }))
        } else {
            None
        },
        None => None,
    }
}

/// Reads an integer at position `p` of `cs`.
pub fn parse_integer(cs: &Vec<char>, p: usize) -> (r: Option<(usize, Token)>)
    requires
        p <= cs@.len(),
    ensures
        expr_result_view(r) == spec_integer(cs@, p as int),
        r matches Some((q, _)) ==> p < q <= cs@.len(),
{
    let q = scan(cs, p, CharClass::Space);
    let neg = q < cs.len() && cs[q] == '-';
    let d = if neg {
        q + 1
    } else {
        q
    };
    let e = scan(cs, d, CharClass::Digit);
    proof {
        lemma_span_end_bounds(cs@, d as int, CharClass::Digit);
    }
    if e <= d {
        return None;
    }
    let limit: u64 = if neg {
        0x8000_0000_0000_0000
    } else {
        0x7fff_ffff_ffff_ffff
    };
    match read_number(cs, d, e, limit) {
        Some(v) => {
            let value: i64 = if neg {
                if v == 0x8000_0000_0000_0000 {
                    i64::MIN
                } else {
                    -(v as i64)
                }
            } else {
                v as i64
            };
            let after = scan(cs, e, CharClass::Space);
            Some((after, Token::Integer { value }))
        },
        None => None,
    }
}

/// Reads a float literal at position `p` of `cs`, the characters of `input`.
pub fn parse_float(input: &str, cs: &Vec<char>, p: usize) -> (r: Option<(usize, Token)>)
    requires
        cs@ == input@,
        p <= cs@.len(),
    ensures
        expr_result_view(r) == spec_float(cs@, p as int),
        r matches Some((q, _)) ==> p < q <= cs@.len(),
{
    let q = scan(cs, p, CharClass::Space);
    let d = if q < cs.len() && cs[q] == '-' {
        q + 1
    } else {
        q
    };
    let e = scan(cs, d, CharClass::Digit);
    if e > d && e < cs.len() && cs[e] == '.' {
        let f = scan(cs, e + 1, CharClass::Digit);
        if f > e + 1 {
            let after = scan(cs, f, CharClass::Space);
            Some((after, Token::Float { value: make_name(input, q, f) }))
        } else {
            None
        }
    } else {
        None
    }
}

/// Reads a factor at position `p` of `cs`, the characters of `input`.
pub fn parse_factor(input: &str, cs: &Vec<char>, p: usize) -> (r: Option<(usize, Token)>)
    requires
        cs@ == input@,
        p <= cs@.len(),
    ensures
        expr_result_view(r) == spec_factor(cs@, p as int),
        r matches Some((q, _)) ==> p < q <= cs@.len(),
    decreases cs@.len() - p, 1int,
{
    match parse_float(input, cs, p) {
        Some((q, f)) => {
            return Some((q, Token::Factor { value: Box::new(f) }));
        },
        None => {},
    }
    match parse_integer(cs, p) {
        Some((q, i)) => {
            return Some((q, Token::Factor { value: Box::new(i) }));
        },
        None => {},
    }
    let q = scan(cs, p, CharClass::Space);
    if q < cs.len() && cs[q] == '(' {
        match parse_expression(input, cs, q + 1) {
            Some((r, e)) => {
                let t = scan(cs, r, CharClass::Space);
                if t < cs.len() && cs[t] == ')' {
                    let after = scan(cs, t + 1, CharClass::Space);
                    Some((after, Token::Factor { value: Box::new(e) }))
                } else {
                    None
                }
            },
            None => None,
        }
    } else {
        None
    }
}

/// Reads a term at position `p` of `cs`, the characters of `input`.
pub fn parse_term(input: &str, cs: &Vec<char>, p: usize) -> (r: Option<(usize, Token)>)
    requires
        cs@ == input@,
        p <= cs@.len(),
    ensures
        expr_result_view(r) == spec_term(cs@, p as int),
        r matches Some((q, _)) ==> p < q <= cs@.len(),
    decreases cs@.len() - p, 2int,
{
    let (q, left) = match parse_factor(input, cs, p) {
        Some(x) => x,
        None => {
            return None;
        },
    };
    let mut right: Vec<(Token, Token)> = Vec::new();
    let mut pos = q;
    loop
        invariant
            cs@ == input@,
            p < q <= pos <= cs@.len(),
            spec_term_tail(cs@, q as int) == (
                spec_term_tail(cs@, pos as int).0,
                pairs_view(right@) + spec_term_tail(cs@, pos as int).1,
            ),
        ensures
            p < q <= pos <= cs@.len(),
            spec_term_tail(cs@, q as int) == (pos as int, pairs_view(right@)),
        decreases cs@.len() - pos,
    {
        let ghost before = pairs_view(right@);
        let (o, op) = match parse_multiplicative_operator(cs, pos) {
            Some(x) => x,
            None => {
                assert(pairs_view(right@) + Seq::<(ExprView, ExprView)>::empty() =~= pairs_view(
                    right@,
                ));
                break ;
            },
        };
        let (r, f) = match parse_factor(input, cs, o) {
            Some(x) => x,
            None => {
                assert(pairs_view(right@) + Seq::<(ExprView, ExprView)>::empty() =~= pairs_view(
                    right@,
                ));
                break ;
            },
        };
        let ghost pair = (op@, f@);
        let ghost old_right = right@;
        right.push((op, f));
        proof {
            assert(right@.drop_last() =~= old_right);
            assert(pairs_view(right@) == before.push(pair));
            let rest = spec_term_tail(cs@, r as int).1;
            assert(before + (seq![pair] + rest) =~= before.push(pair) + rest);
        }
        pos = r;
    }
    let ghost lv = left@;
    let t = Token::Term { left: Box::new(left), right };
    assert(t@ == ExprView::Term { left: Box::new(lv), right: pairs_view(right@) });
    Some((pos, t))
}

/// Reads an expression at position `p` of `cs`, the characters of `input`.
pub fn parse_expression(input: &str, cs: &Vec<char>, p: usize) -> (r: Option<(usize, Token)>)
    requires
        cs@ == input@,
        p <= cs@.len(),
    ensures
        expr_result_view(r) == spec_expression(cs@, p as int),
        r matches Some((q, _)) ==> p < q <= cs@.len(),
    decreases cs@.len() - p, 3int,
{
    let (q, left) = match parse_term(input, cs, p) {
        Some(x) => x,
        None => {
            return None;
        },
    };
    let mut right: Vec<(Token, Token)> = Vec::new();
    let mut pos = q;
    loop
        invariant
            cs@ == input@,
            p < q <= pos <= cs@.len(),
            spec_expression_tail(cs@, q as int) == (
                spec_expression_tail(cs@, pos as int).0,
                pairs_view(right@) + spec_expression_tail(cs@, pos as int).1,
            ),
        ensures
            p < q <= pos <= cs@.len(),
            spec_expression_tail(cs@, q as int) == (pos as int, pairs_view(right@)),
        decreases cs@.len() - pos,
    {
        let ghost before = pairs_view(right@);
        let (o, op) = match parse_additive_operator(cs, pos) {
            Some(x) => x,
            None => {
                assert(pairs_view(right@) + Seq::<(ExprView, ExprView)>::empty() =~= pairs_view(
                    right@,
                ));
                break ;
            },
        };
        let (r, t) = match parse_term(input, cs, o) {
            Some(x) => x,
            None => {
                assert(pairs_view(right@) + Seq::<(ExprView, ExprView)>::empty() =~= pairs_view(
                    right@,
                ));
                break ;
            },
        };
        let ghost pair = (op@, t@);
        let ghost old_right = right@;
        right.push((op, t));
        proof {
            assert(right@.drop_last() =~= old_right);
            assert(pairs_view(right@) == before.push(pair));
            let rest = spec_expression_tail(cs@, r as int).1;
            assert(before + (seq![pair] + rest) =~= before.push(pair) + rest);
        }
        pos = r;
    }
    let ghost lv = left@;
    let e = Token::Expression { left: Box::new(left), right };
    assert(e@ == ExprView::Expression { left: Box::new(lv), right: pairs_view(right@) });
    Some((pos, e))
}

/// `r` is what an expression rule whose meaning is `expect` gives on the whole
/// of `s`: the rest of the input and the token.
pub open spec fn expr_parsed(
    r: Result<(&str, Token), ParseError>,
    s: Seq<char>,
    expect: Option<(int, ExprView)>,
) -> bool {
    match expect {
        Some((q, t)) => r matches Ok((rest, tok)) && rest@ == s.subrange(q, s.len() as int) && tok@
            == t,
        None => r is Err,
    }
}

/// Parses an expression at the start of `input`.
pub fn expression(input: &str) -> (r: Result<(&str, Token), ParseError>)
    ensures
        expr_parsed(r, input@, spec_expression(input@, 0)),
{
    let cs = chars_of(input);
    match parse_expression(input, &cs, 0) {
        Some((q, t)) => Ok((input.substring_char(q, cs.len()), t)),
        None => Err(ParseError::NoMatch),
    }
}

} // verus!
