//! Directives: `.` and a name, such as `.data` or `.asciiz`, with an optional
//! label in front and up to three operands after.
use vstd::prelude::*;

use super::instruction_parsers::{
    finish_instruction, instr_parsed, instr_result_view, opt_token, parse_operands,
    spec_operands, AssemblerInstruction, InstrView,
};
use super::label_parsers::{make_name, parse_label_declaration, spec_label_declaration};
use super::scanner::{chars_of, scan, skip_ws, span_end, CharClass};
use super::{finish_token, token_parsed, token_result_view, ParseError, Token, TokenView};

verus! {

/// A directive's name at `p`: optional whitespace, `.`, one or more letters,
/// and any whitespace after them.
pub open spec fn spec_directive_declaration(s: Seq<char>, p: int) -> Option<(int, TokenView)> {
    let q = skip_ws(s, p);
    if q < s.len() && s[q] == '.' {
        let e = span_end(s, q + 1, CharClass::Alpha);
        if e > q + 1 {
            Some((skip_ws(s, e), TokenView::Directive { name: s.subrange(q + 1, e) }))
        } else {
            None
        }
    } else {
        None
    }
}

/// A directive at `p`: an optional label declaration, the directive's name and
/// up to three operands.
pub open spec fn spec_directive_combined(s: Seq<char>, p: int) -> Option<(int, InstrView)> {
    let (p1, l) = opt_token(spec_label_declaration(s, p), p);
    match spec_directive_declaration(s, p1) {
        Some((p2, d)) => {
            let (p3, o1, o2, o3) = spec_operands(s, p2);
            Some(
                (
                    p3,
                    InstrView {
                        opcode: None,
                        label: l,
                        directive: Some(d),
                        operand1: o1,
                        operand2: o2,
                        operand3: o3,
                    },
                ),
            )
        },
        None => None,
    }
}

/// Reads a directive's name at position `p` of `cs`, the characters of `input`.
pub fn parse_directive_declaration(input: &str, cs: &Vec<char>, p: usize) -> (r: Option<
    (usize, Token),
>)
    requires
        cs@ == input@,
        p <= cs@.len(),
    ensures
        token_result_view(r) == spec_directive_declaration(cs@, p as int),
        r matches Some((q, _)) ==> p < q <= cs@.len(),
{
    let q = scan(cs, p, CharClass::Space);
    if q < cs.len() && cs[q] == '.' {
        let e = scan(cs, q + 1, CharClass::Alpha);
        if e > q + 1 {
            let after = scan(cs, e, CharClass::Space);
            Some((after, Token::Directive { name: make_name(input, q + 1, e) }))
        } else {
            None
        }
    } else {
        None
    }
}

/// Reads a directive at position `p` of `cs`, the characters of `input`.
pub fn parse_directive_combined(input: &str, cs: &Vec<char>, p: usize) -> (r: Option<
    (usize, AssemblerInstruction),
>)
    requires
        cs@ == input@,
        p <= cs@.len(),
    ensures
        instr_result_view(r) == spec_directive_combined(cs@, p as int),
        r matches Some((q, _)) ==> p < q <= cs@.len(),
{
    let (p1, l) = match parse_label_declaration(input, cs, p) {
        Some((q, t)) => (q, Some(t)),
        None => (p, None),
    };
    match parse_directive_declaration(input, cs, p1) {
        Some((p2, d)) => {
            let (p3, o1, o2, o3) = parse_operands(input, cs, p2);
            Some(
                (
                    p3,
                    AssemblerInstruction {
                        opcode: None,
                        label: l,
                        directive: Some(d),
                        operand1: o1,
                        operand2: o2,
                        operand3: o3,
                    },
                ),
            )
        },
        None => None,
    }
}

/// Parses a directive's name at the start of `input`.
pub fn directive_declaration(input: &str) -> (r: Result<(&str, Token), ParseError>)
    ensures
        token_parsed(r, input@, spec_directive_declaration(input@, 0)),
{
    let cs = chars_of(input);
    let t = parse_directive_declaration(input, &cs, 0);
    finish_token(input, cs.len(), t)
}

/// Parses a directive, with its label and operands, at the start of `input`.
pub fn directive_combined(input: &str) -> (r: Result<(&str, AssemblerInstruction), ParseError>)
    ensures
        instr_parsed(r, input@, spec_directive_combined(input@, 0)),
{
    let cs = chars_of(input);
    let i = parse_directive_combined(input, &cs, 0);
    finish_instruction(input, cs.len(), i)
}

/// Parses any of the forms of a directive at the start of `input`.
pub fn directive(input: &str) -> (r: Result<(&str, AssemblerInstruction), ParseError>)
    ensures
        instr_parsed(r, input@, spec_directive_combined(input@, 0)),
{
    directive_combined(input)
}

} // verus!
