//! Opcodes: the mnemonic that starts an instruction, such as `load`.
use vstd::prelude::*;

use super::scanner::{chars_of, in_class, is_alpha, scan, skip_ws, span_end, CharClass};
use super::{finish_token, token_parsed, token_result_view, ParseError, Token, TokenView};
use crate::instruction::{
    law_mnemonic_names_its_opcode, lemma_mnemonic_is_lower_word, mnemonic, opcode_named, Opcode,
};

verus! {

/// An opcode at `p`: optional whitespace, one or more letters, and any
/// whitespace after them. A word that names no operation is `IGL`.
pub open spec fn spec_opcode(s: Seq<char>, p: int) -> Option<(int, TokenView)> {
    let q = skip_ws(s, p);
    let e = span_end(s, q, CharClass::Alpha);
    if e > q {
        Some((skip_ws(s, e), TokenView::Op { code: opcode_named(s.subrange(q, e)) }))
    } else {
        None
    }
}

/// Reads an opcode at position `p` of `cs`.
pub fn parse_opcode(cs: &Vec<char>, p: usize) -> (r: Option<(usize, Token)>)
    requires
        p <= cs@.len(),
    ensures
        token_result_view(r) == spec_opcode(cs@, p as int),
        r matches Some((q, _)) ==> p < q <= cs@.len(),
{
    let q = scan(cs, p, CharClass::Space);
    let e = scan(cs, q, CharClass::Alpha);
    if e > q {
        let code = Opcode::from_word(cs, q, e);
        let after = scan(cs, e, CharClass::Space);
        Some((after, Token::Op { code }))
    } else {
        None
    }
}

/// Parses an opcode at the start of `input`.
pub fn opcode(input: &str) -> (r: Result<(&str, Token), ParseError>)
    ensures
        token_parsed(r, input@, spec_opcode(input@, 0)),
{
    let cs = chars_of(input);
    let t = parse_opcode(&cs, 0);
    finish_token(input, cs.len(), t)
}

/// A run of letters from `p` up to a non-letter (or the end) at `e` is what a
/// scan for letters covers.
proof fn lemma_letters_end_at(s: Seq<char>, p: int, e: int)
    requires
        0 <= p <= e <= s.len(),
        forall|i: int| p <= i < e ==> is_alpha(#[trigger] s[i]),
        e == s.len() || !is_alpha(s[e]),
    ensures
        span_end(s, p, CharClass::Alpha) == e,
    decreases e - p,
{
    if p < e {
        lemma_letters_end_at(s, p + 1, e);
    }
}

/// Wherever an operation's mnemonic stands as a whole word, the opcode parser
/// reads that operation (never `IGL`), and goes on after the blanks that
/// follow the word.
pub proof fn law_opcode_reads_mnemonic(s: Seq<char>, p: int, op: Opcode)
    requires
        op != Opcode::IGL,
        0 <= p,
        p + mnemonic(op).len() <= s.len(),
        s.subrange(p, p + mnemonic(op).len()) == mnemonic(op),
        p + mnemonic(op).len() == s.len() || !is_alpha(s[p + mnemonic(op).len()]),
    ensures
        spec_opcode(s, p) == Some(
            (skip_ws(s, p + mnemonic(op).len()), TokenView::Op { code: op }),
        ),
{
    let m = mnemonic(op);
    let e = p + m.len();
    lemma_mnemonic_is_lower_word(op);
    law_mnemonic_names_its_opcode(op);
    assert(s[p] == m[0]);
    assert(!in_class(CharClass::Space, s[p]));
    assert(skip_ws(s, p) == p);
    assert forall|i: int| p <= i < e implies is_alpha(#[trigger] s[i]) by {
        assert(s[i] == m[i - p]);
    }
    lemma_letters_end_at(s, p, e);
}

} // verus!
