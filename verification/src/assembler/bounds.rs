//! How much a source of a given length can make the assembler count: at most
//! one line and four read-only bytes per character.
use vstd::prelude::*;

use super::directive_parsers::spec_directive_declaration;
use super::instruction_parsers::{opt_token, spec_instruction, spec_operands, InstrView};
use super::label_parsers::spec_label_declaration;
use super::model::{asciiz_bytes, ro_need, ro_need_all};
use super::opcode_parsers::spec_opcode;
use super::operand_parsers::spec_operand;
use super::program_parsers::spec_instructions;
use super::scanner::{lemma_span_end_bounds, skip_ws, span_end, CharClass};
use super::TokenView;
use vstd::utf8::{encode_scalar, encode_utf8};

verus! {

/// UTF-8 takes at most four bytes per character.
pub proof fn lemma_utf8_len(s: Seq<char>)
    ensures
        encode_utf8(s).len() <= 4 * s.len(),
    decreases s.len(),
{
    if s.len() > 0 {
        lemma_utf8_len(s.drop_first());
        assert(encode_scalar(s[0] as u32).len() <= 4);
    }
}

/// An operand never ends before it starts, and a string operand spans its
/// characters and two quotes.
proof fn lemma_operand_span(s: Seq<char>, p: int)
    requires
        0 <= p <= s.len(),
    ensures
        spec_operand(s, p) matches Some((q, t)) ==> p <= q <= s.len() && (
        t matches TokenView::IrString { name } ==> q >= p + name.len() + 2),
{
    let q = skip_ws(s, p);
    lemma_span_end_bounds(s, p, CharClass::Space);
    if q < s.len() {
        lemma_span_end_bounds(s, q + 1, CharClass::Space);
        let d = skip_ws(s, q + 1);
        lemma_span_end_bounds(s, d, CharClass::Digit);
        lemma_span_end_bounds(s, d, CharClass::AlphaNumeric);
        lemma_span_end_bounds(s, q + 1, CharClass::NotQuote);
        let e1 = span_end(s, d, CharClass::Digit);
        let e2 = span_end(s, d, CharClass::AlphaNumeric);
        let e3 = span_end(s, q + 1, CharClass::NotQuote);
        lemma_span_end_bounds(s, e1, CharClass::Space);
        lemma_span_end_bounds(s, e2, CharClass::Space);
        if e3 < s.len() {
            lemma_span_end_bounds(s, e3 + 1, CharClass::Space);
        }
    }
}

proof fn lemma_operands_span(s: Seq<char>, p: int)
    requires
        0 <= p <= s.len(),
    ensures
        p <= spec_operands(s, p).0 <= s.len(),
        spec_operands(s, p).1 matches Some(TokenView::IrString { name }) ==> spec_operands(s, p).0
            >= p + name.len() + 2,
{
    lemma_operand_span(s, p);
    let (p1, o1) = opt_token(spec_operand(s, p), p);
    lemma_operand_span(s, p1);
    let (p2, o2) = opt_token(spec_operand(s, p1), p1);
    lemma_operand_span(s, p2);
}

/// A line takes at least one character, and its `.asciiz` string at most four
/// read-only bytes per character it takes.
proof fn lemma_instruction_span(s: Seq<char>, p: int)
    requires
        0 <= p <= s.len(),
    ensures
        spec_instruction(s, p) matches Some((q, i)) ==> p < q <= s.len() && ro_need(i) <= 4 * (q
            - p),
{
    let q0 = skip_ws(s, p);
    lemma_span_end_bounds(s, p, CharClass::Space);
    lemma_span_end_bounds(s, q0, CharClass::AlphaNumeric);
    let e0 = span_end(s, q0, CharClass::AlphaNumeric);
    if e0 < s.len() {
        lemma_span_end_bounds(s, e0 + 1, CharClass::Space);
    }
    let (p1, l) = opt_token(spec_label_declaration(s, p), p);
    assert(p <= p1 <= s.len());
    let q1 = skip_ws(s, p1);
    lemma_span_end_bounds(s, p1, CharClass::Space);
    lemma_span_end_bounds(s, q1, CharClass::Alpha);
    let ea = span_end(s, q1, CharClass::Alpha);
    lemma_span_end_bounds(s, ea, CharClass::Space);
    if q1 < s.len() {
        lemma_span_end_bounds(s, q1 + 1, CharClass::Alpha);
        let ed = span_end(s, q1 + 1, CharClass::Alpha);
        lemma_span_end_bounds(s, ed, CharClass::Space);
    }
    if let Some((p2, _)) = spec_opcode(s, p1) {
        lemma_operands_span(s, p2);
    }
    if let Some((p2, _)) = spec_directive_declaration(s, p1) {
        lemma_operands_span(s, p2);
        let (p3, o1, o2, o3) = spec_operands(s, p2);
        if let Some(TokenView::IrString { name }) = o1 {
            lemma_utf8_len(name);
            assert(asciiz_bytes(name).len() <= 4 * name.len() + 1);
        }
    }
}

proof fn lemma_ro_need_prepend(i: InstrView, rest: Seq<InstrView>)
    ensures
        ro_need_all(seq![i] + rest) == ro_need(i) + ro_need_all(rest),
    decreases rest.len(),
{
    if rest.len() > 0 {
        lemma_ro_need_prepend(i, rest.drop_last());
        assert((seq![i] + rest).drop_last() =~= seq![i] + rest.drop_last());
        assert((seq![i] + rest).last() == rest.last());
    } else {
        assert(seq![i] + rest =~= seq![i]);
        assert(seq![i].drop_last() =~= Seq::<InstrView>::empty());
        assert(ro_need_all(Seq::<InstrView>::empty()) == 0);
        assert(ro_need_all(seq![i]) == ro_need(i));
    }
}

/// The lines read from `p` are no more than the characters they take, and need
/// at most four read-only bytes per character.
pub proof fn lemma_instructions_bounds(s: Seq<char>, p: int)
    requires
        0 <= p <= s.len(),
    ensures
        p <= spec_instructions(s, p).0 <= s.len(),
        spec_instructions(s, p).1.len() <= spec_instructions(s, p).0 - p,
        ro_need_all(spec_instructions(s, p).1) <= 4 * (spec_instructions(s, p).0 - p),
    decreases s.len() - p,
{
    lemma_instruction_span(s, p);
    match spec_instruction(s, p) {
        Some((q, i)) => {
            if p < q <= s.len() {
                lemma_instructions_bounds(s, q);
                let rest = spec_instructions(s, q).1;
                lemma_ro_need_prepend(i, rest);
            } else {
                assert(ro_need_all(Seq::<InstrView>::empty()) == 0);
            }
        },
        None => {
            assert(ro_need_all(Seq::<InstrView>::empty()) == 0);
        },
    }
}

} // verus!
