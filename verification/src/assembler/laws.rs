//! Properties of the assembler that hold across its operations.
use vstd::prelude::*;

use super::instruction_parsers::{encode, InstrView};
use super::model::{
    has_data_and_code, has_directive, labels_of,
    asciiz_bytes, asm_wf, fold_first, fold_second, pie_header, push_error, ro_need, spec_assemble,
    spec_directive, spec_first_phase, spec_first_step, spec_label_declaration_step,
    spec_second_phase, AsmView, ErrorView,
};
use super::program_parsers::{encode_all, spec_program};
use super::symbol_table::{
    lemma_find_symbol, lemma_lookup_after_add, lemma_lookup_after_set_offset, lookup, with_offset,
    SymbolView,
};
use super::{AssemblerPhase, TokenView};
use crate::instruction::opcode_code;
use vstd::utf8::encode_utf8;

verus! {

/// A line assembles to at most seven bytes; an instruction's bytecode starts
/// with its opcode's code.
pub proof fn law_instruction_bytes(i: InstrView, syms: Seq<SymbolView>)
    ensures
        encode(i, syms).len() <= 7,
        i.opcode matches Some(TokenView::Op { code }) ==> encode(i, syms).len() >= 1 && encode(
            i,
            syms,
        )[0] == opcode_code(code),
{
}

/// A program of `n` lines assembles to at most `7 * n` bytes.
pub proof fn law_program_bytes_len(is: Seq<InstrView>, syms: Seq<SymbolView>)
    ensures
        encode_all(is, syms).len() <= 7 * is.len(),
    decreases is.len(),
{
    if is.len() > 0 {
        law_program_bytes_len(is.drop_last(), syms);
        law_instruction_bytes(is.last(), syms);
    }
}

/// A successful assembly of a source with directives starts with the 65-byte
/// header; a failed assembly reports at least one error.
pub proof fn law_assembled_output(v: AsmView, s: Seq<char>)
    ensures
        (spec_program(s, 0) matches Some((_, is)) && has_directive(is)) ==> (spec_assemble(
            v,
            s,
        ).1 matches Ok(b) ==> b.len() >= 65 && b.subrange(0, 65) == pie_header()),
        spec_assemble(v, s).1 matches Err(es) ==> es.len() > 0,
{
    if let Ok(b) = spec_assemble(v, s).1 {
        if let Some((_, is)) = spec_program(s, 0) {
            if has_directive(is) {
                assert(b.subrange(0, 65) =~= pie_header());
            }
        }
    }
}

/// The second phase leaves the symbol table as the first phase made it, so
/// every label is resolved against the table of the whole program; in the
/// second phase `.asciiz` lines write nothing more. Whatever the phase, the
/// line counter ends at the number of lines.
pub proof fn law_second_phase_keeps_symbols(v: AsmView, is: Seq<InstrView>)
    requires
        v.phase == AssemblerPhase::Second,
    ensures
        spec_second_phase(v, is).0.symbols == v.symbols,
        spec_second_phase(v, is).0.ro == v.ro,
        spec_second_phase(v, is).0.ro_offset == v.ro_offset,
        spec_second_phase(v, is).0.phase == AssemblerPhase::Second,
{
    lemma_fold_second_keeps(AsmView { current_instruction: 0, ..v }, is);
}

proof fn lemma_fold_second_keeps(v: AsmView, is: Seq<InstrView>)
    requires
        v.phase == AssemblerPhase::Second,
    ensures
        fold_second(v, is).0.symbols == v.symbols,
        fold_second(v, is).0.ro == v.ro,
        fold_second(v, is).0.ro_offset == v.ro_offset,
        fold_second(v, is).0.phase == AssemblerPhase::Second,
    decreases is.len(),
{
    if is.len() > 0 {
        lemma_fold_second_keeps(v, is.drop_last());
    }
}

/// After the first phase the assembler is in its second phase, so assembling
/// again with the same assembler writes no more string constants.
pub proof fn law_first_phase_ends_in_second(v: AsmView, is: Seq<InstrView>)
    ensures
        spec_first_phase(v, is).phase == AssemblerPhase::Second,
{
}

/// A `.asciiz` line with a declared label puts its string, UTF-8 encoded and
/// followed by a zero, at the end of the read-only section, and the label then
/// stands for the offset where the string starts.
pub proof fn law_asciiz_read_back(v: AsmView, i: InstrView, s: Seq<char>, l: Seq<char>)
    requires
        asm_wf(v),
        v.phase == AssemblerPhase::First,
        v.ro_offset + ro_need(i) <= u32::MAX,
        i.directive == Some(TokenView::Directive { name: "asciiz"@ }),
        i.operand1 == Some(TokenView::IrString { name: s }),
        i.label == Some(TokenView::LabelDeclaration { name: l }),
        lookup(v.symbols, l) is Some,
    ensures
        asm_wf(spec_directive(v, i)),
        lookup(spec_directive(v, i).symbols, l) == Some(v.ro_offset),
        spec_directive(v, i).ro.subrange(
            v.ro_offset as int,
            v.ro_offset + encode_utf8(s).len(),
        ) == encode_utf8(s),
        spec_directive(v, i).ro[v.ro_offset + encode_utf8(s).len()] == 0u8,
        spec_directive(v, i).ro.subrange(0, v.ro_offset as int) == v.ro,
{
    let w = spec_directive(v, i);
    lemma_lookup_after_set_offset(v.symbols, l, v.ro_offset, l);
    assert(w.ro =~= v.ro + asciiz_bytes(s));
    assert(w.ro.subrange(v.ro_offset as int, v.ro_offset + encode_utf8(s).len()) =~= encode_utf8(
        s,
    ));
    assert(w.ro.subrange(0, v.ro_offset as int) =~= v.ro);
}

/// A label declared inside a section under a name not yet in the table stands
/// for four bytes per line before it; a name already in the table keeps its
/// first offset and the declaration is an error.
pub proof fn law_label_declaration(v: AsmView, i: InstrView, l: Seq<char>)
    requires
        i.label == Some(TokenView::LabelDeclaration { name: l }),
        v.current_instruction * 4 <= u32::MAX,
    ensures
        lookup(v.symbols, l) is None ==> lookup(spec_label_declaration_step(v, i).symbols, l)
            == Some((v.current_instruction * 4) as u32),
        lookup(v.symbols, l) is Some ==> lookup(spec_label_declaration_step(v, i).symbols, l)
            == lookup(v.symbols, l) && spec_label_declaration_step(v, i).errors.len()
            == v.errors.len() + 1,
{
    let sym = SymbolView {
        name: l,
        offset: (v.current_instruction * 4) as u32,
        symbol_type: super::SymbolType::Label,
    };
    lemma_lookup_after_add(v.symbols, sym, l);
}

/// A source of instructions alone always assembles, to their bytecode with
/// each label at four bytes per line before it. A source with directives fails
/// exactly when the first phase found errors (they are what is reported) or
/// the sections recorded after it include no data section or no code
/// section; otherwise it gives the header and then the second phase's
/// bytecode. A source with no line fails and leaves
/// the assembler as it was.
pub proof fn law_assembly_outcome(v: AsmView, s: Seq<char>)
    ensures
        match spec_program(s, 0) {
            None => spec_assemble(v, s).1 is Err && spec_assemble(v, s).0 == v,
            Some((_, is)) => if !has_directive(is) {
                spec_assemble(v, s).1 == Ok::<_, Seq<ErrorView>>(
                    encode_all(is, v.symbols + labels_of(is)),
                )
            } else {
                let first = spec_first_phase(v, is);
                &&& first.errors.len() > 0 ==> spec_assemble(v, s).1 == Err::<Seq<u8>, _>(
                    first.errors,
                )
                &&& (first.errors.len() == 0 && !has_data_and_code(first.sections)) ==> (
                spec_assemble(v, s).1 matches Err(es) && es.last()
                    == ErrorView::InsufficientSections)
                &&& spec_assemble(v, s).1 is Ok <==> (first.errors.len() == 0
                    && has_data_and_code(first.sections))
                &&& spec_assemble(v, s).1 is Ok ==> spec_assemble(v, s).1 == Ok::<
                    _,
                    Seq<ErrorView>,
                >(pie_header() + spec_second_phase(first, is).1)
            },
        },
{
}

/// The bytecode of a program's instructions (its lines with an opcode), one
/// after the other, with labels looked up in `syms`.
pub open spec fn encode_instructions(is: Seq<InstrView>, syms: Seq<SymbolView>) -> Seq<u8>
    decreases is.len(),
{
    if is.len() == 0 {
        Seq::empty()
    } else {
        encode_instructions(is.drop_last(), syms) + (if is.last().opcode is Some {
            encode(is.last(), syms)
        } else {
            Seq::empty()
        })
    }
}

proof fn lemma_fold_second_bytes(v: AsmView, is: Seq<InstrView>)
    requires
        v.phase == AssemblerPhase::Second,
    ensures
        fold_second(v, is).1 == encode_instructions(is, v.symbols),
    decreases is.len(),
{
    if is.len() > 0 {
        lemma_fold_second_bytes(v, is.drop_last());
        lemma_fold_second_keeps(v, is.drop_last());
    }
}

/// The second phase's bytecode is every instruction's bytecode in order, with
/// labels resolved against the symbol table the first phase built.
pub proof fn law_second_phase_bytecode(v: AsmView, is: Seq<InstrView>)
    requires
        v.phase == AssemblerPhase::Second,
    ensures
        spec_second_phase(v, is).1 == encode_instructions(is, v.symbols),
{
    lemma_fold_second_bytes(AsmView { current_instruction: 0, ..v }, is);
}

/// Whether line `i` is an `.asciiz` line that moves label `l` to its string.
pub open spec fn moves_label(i: InstrView, l: Seq<char>) -> bool {
    &&& i.directive == Some(TokenView::Directive { name: "asciiz"@ })
    &&& i.operand1 matches Some(TokenView::IrString { .. })
    &&& i.label == Some(TokenView::LabelDeclaration { name: l })
}

proof fn lemma_fold_first_counts(v: AsmView, is: Seq<InstrView>)
    requires
        v.current_instruction + is.len() < 0x4000_0000,
    ensures
        fold_first(v, is).current_instruction == v.current_instruction + is.len(),
    decreases is.len(),
{
    if is.len() > 0 {
        lemma_fold_first_counts(v, is.drop_last());
    }
}

proof fn lemma_directive_keeps_label(w: AsmView, i: InstrView, l: Seq<char>, o: u32)
    requires
        lookup(w.symbols, l) == Some(o),
        !moves_label(i, l),
    ensures
        lookup(spec_directive(w, i).symbols, l) == Some(o),
{
    if let Some(TokenView::LabelDeclaration { name }) = i.label {
        if name != l {
            lemma_lookup_after_set_offset(w.symbols, name, w.ro_offset, l);
        }
    }
}

proof fn lemma_step_keeps_label(w: AsmView, i: InstrView, l: Seq<char>, o: u32)
    requires
        lookup(w.symbols, l) == Some(o),
        !moves_label(i, l),
    ensures
        lookup(spec_first_step(w, i).symbols, l) == Some(o),
{
    let w1 = if i.label is Some {
        if w.current_section is Some {
            spec_label_declaration_step(w, i)
        } else {
            push_error(
                w,
                ErrorView::NoSegmentDeclarationFound { instruction: w.current_instruction },
            )
        }
    } else {
        w
    };
    if let Some(TokenView::LabelDeclaration { name }) = i.label {
        let sym = SymbolView {
            name,
            offset: (w.current_instruction * 4) as u32,
            symbol_type: super::SymbolType::Label,
        };
        lemma_lookup_after_add(w.symbols, sym, l);
    }
    assert(lookup(w1.symbols, l) == Some(o));
    lemma_directive_keeps_label(w1, i, l, o);
}

proof fn lemma_later_lines_keep_label(
    v: AsmView,
    is: Seq<InstrView>,
    k: int,
    m: int,
    l: Seq<char>,
    o: u32,
)
    requires
        0 <= k < m <= is.len(),
        lookup(fold_first(v, is.take(k + 1)).symbols, l) == Some(o),
        forall|j: int| k <= j < is.len() ==> !moves_label(#[trigger] is[j], l),
    ensures
        lookup(fold_first(v, is.take(m)).symbols, l) == Some(o),
    decreases m - k,
{
    if m > k + 1 {
        lemma_later_lines_keep_label(v, is, k, m - 1, l, o);
        assert(is.take(m).drop_last() =~= is.take(m - 1));
        assert(is.take(m).last() == is[m - 1]);
        assert(!moves_label(is[m - 1], l));
        lemma_step_keeps_label(fold_first(v, is.take(m - 1)), is[m - 1], l, o);
    }
}

/// In the first phase, a label declared on line `k` while a section is
/// current, under a name no earlier line declared, stands for four bytes per
/// line the assembler counted before it, unless an `.asciiz` line with that
/// label moves it to its string.
pub proof fn law_first_phase_label(v: AsmView, is: Seq<InstrView>, k: int, l: Seq<char>)
    requires
        0 <= k < is.len(),
        v.current_instruction + is.len() < 0x4000_0000,
        is[k].label == Some(TokenView::LabelDeclaration { name: l }),
        fold_first(v, is.take(k)).current_section is Some,
        lookup(fold_first(v, is.take(k)).symbols, l) is None,
        forall|j: int| k <= j < is.len() ==> !moves_label(#[trigger] is[j], l),
    ensures
        lookup(spec_first_phase(v, is).symbols, l) == Some(
            (4 * (v.current_instruction + k)) as u32,
        ),
{
    let o = (4 * (v.current_instruction + k)) as u32;
    lemma_fold_first_counts(v, is.take(k));
    let w = fold_first(v, is.take(k));
    assert(is.take(k + 1).drop_last() =~= is.take(k));
    assert(is.take(k + 1).last() == is[k]);
    law_label_declaration(w, is[k], l);
    let w1 = spec_label_declaration_step(w, is[k]);
    assert(!moves_label(is[k], l));
    lemma_directive_keeps_label(w1, is[k], l, o);
    lemma_later_lines_keep_label(v, is, k, is.len() as int, l, o);
    assert(is.take(is.len() as int) =~= is);
}

proof fn lemma_encode_instructions_concat(
    a: Seq<InstrView>,
    b: Seq<InstrView>,
    syms: Seq<SymbolView>,
)
    ensures
        encode_instructions(a + b, syms) == encode_instructions(a, syms) + encode_instructions(
            b,
            syms,
        ),
    decreases b.len(),
{
    if b.len() == 0 {
        assert(a + b =~= a);
        assert(encode_instructions(a, syms) + Seq::<u8>::empty() =~= encode_instructions(a, syms));
    } else {
        lemma_encode_instructions_concat(a, b.drop_last(), syms);
        assert((a + b).drop_last() =~= a + b.drop_last());
        assert((a + b).last() == b.last());
        let x = if b.last().opcode is Some {
            encode(b.last(), syms)
        } else {
            Seq::<u8>::empty()
        };
        assert(encode_instructions(a, syms) + encode_instructions(b.drop_last(), syms) + x
            =~= encode_instructions(a, syms) + (encode_instructions(b.drop_last(), syms) + x));
    }
}

/// In the second phase, the bytecode of two programs one after the other is
/// the bytecode of the first followed by that of the second.
pub proof fn law_second_phase_concat(v: AsmView, a: Seq<InstrView>, b: Seq<InstrView>)
    requires
        v.phase == AssemblerPhase::Second,
    ensures
        spec_second_phase(v, a + b).1 == spec_second_phase(v, a).1 + spec_second_phase(v, b).1,
{
    law_second_phase_bytecode(v, a + b);
    law_second_phase_bytecode(v, a);
    law_second_phase_bytecode(v, b);
    lemma_encode_instructions_concat(a, b, v.symbols);
}

proof fn lemma_fold_second_counts(v: AsmView, is: Seq<InstrView>)
    requires
        v.current_instruction + is.len() <= u32::MAX,
    ensures
        fold_second(v, is).0.current_instruction == v.current_instruction + is.len(),
    decreases is.len(),
{
    if is.len() > 0 {
        lemma_fold_second_counts(v, is.drop_last());
    }
}

/// The second phase counts its lines from zero, whatever the counter held.
pub proof fn law_second_phase_counts_lines(v: AsmView, is: Seq<InstrView>)
    requires
        is.len() <= u32::MAX,
    ensures
        spec_second_phase(v, is).0.current_instruction == is.len(),
{
    lemma_fold_second_counts(AsmView { current_instruction: 0, ..v }, is);
}

/// No two symbols of the table have the same name.
pub open spec fn names_distinct(syms: Seq<SymbolView>) -> bool {
    forall|a: int, b: int|
        0 <= a < b < syms.len() ==> #[trigger] syms[a].name != #[trigger] syms[b].name
}

proof fn lemma_with_offset_names(syms: Seq<SymbolView>, name: Seq<char>, offset: u32)
    ensures
        with_offset(syms, name, offset).len() == syms.len(),
        forall|j: int|
            0 <= j < syms.len() ==> #[trigger] with_offset(syms, name, offset)[j].name
                == syms[j].name,
{
    lemma_find_symbol(syms, name);
}

/// A label declaration never enters a name twice: a table whose names are
/// distinct keeps them distinct.
pub proof fn law_label_declaration_keeps_names_distinct(v: AsmView, i: InstrView)
    requires
        names_distinct(v.symbols),
    ensures
        names_distinct(spec_label_declaration_step(v, i).symbols),
{
    if let Some(TokenView::LabelDeclaration { name }) = i.label {
        if lookup(v.symbols, name) is None {
            lemma_find_symbol(v.symbols, name);
            let t = spec_label_declaration_step(v, i).symbols;
            assert forall|a: int, b: int| 0 <= a < b < t.len() implies #[trigger] t[a].name
                != #[trigger] t[b].name by {
                if b == v.symbols.len() {
                    assert(t[a] == v.symbols[a]);
                } else {
                    assert(t[a] == v.symbols[a] && t[b] == v.symbols[b]);
                }
            }
        }
    }
}

proof fn lemma_first_step_keeps_names_distinct(v: AsmView, i: InstrView)
    requires
        names_distinct(v.symbols),
    ensures
        names_distinct(spec_first_step(v, i).symbols),
{
    law_label_declaration_keeps_names_distinct(v, i);
    let v1 = if i.label is Some {
        if v.current_section is Some {
            spec_label_declaration_step(v, i)
        } else {
            push_error(
                v,
                ErrorView::NoSegmentDeclarationFound { instruction: v.current_instruction },
            )
        }
    } else {
        v
    };
    assert(names_distinct(v1.symbols));
    if let Some(TokenView::LabelDeclaration { name }) = i.label {
        lemma_with_offset_names(v1.symbols, name, v1.ro_offset);
    }
}

proof fn lemma_fold_first_keeps_names_distinct(v: AsmView, is: Seq<InstrView>)
    requires
        names_distinct(v.symbols),
    ensures
        names_distinct(fold_first(v, is).symbols),
    decreases is.len(),
{
    if is.len() > 0 {
        lemma_fold_first_keeps_names_distinct(v, is.drop_last());
        lemma_first_step_keeps_names_distinct(fold_first(v, is.drop_last()), is.last());
    }
}

/// The first phase never enters a label twice: names distinct before it are
/// distinct after it.
pub proof fn law_first_phase_keeps_names_distinct(v: AsmView, is: Seq<InstrView>)
    requires
        names_distinct(v.symbols),
    ensures
        names_distinct(spec_first_phase(v, is).symbols),
{
    lemma_fold_first_keeps_names_distinct(v, is);
}

} // verus!
