//! What the assembler's passes do, stated over the assembler's abstract state.
use vstd::prelude::*;

use super::instruction_parsers::{encode, InstrView};
use super::program_parsers::{encode_all, spec_program};
use super::symbol_table::{lookup, with_offset, SymbolType, SymbolView};
use super::{AssemblerPhase, AssemblerSection, TokenView};
use vstd::utf8::encode_utf8;

verus! {

/// An assembler error with its text as characters.
pub enum ErrorView {
    NoSegmentDeclarationFound { instruction: u32 },
    StringConstantDeclaredWithoutLabel { instruction: u32 },
    SymbolAlreadyDeclared,
    UnknownDirectiveFound { directive: Seq<char> },
    InsufficientSections,
    ParseError { error: Seq<char> },
}

/// The state of an assembler.
pub struct AsmView {
    pub phase: AssemblerPhase,
    pub symbols: Seq<SymbolView>,
    pub ro: Seq<u8>,
    pub bytecode: Seq<u8>,
    pub ro_offset: u32,
    pub sections: Seq<AssemblerSection>,
    pub current_section: Option<AssemblerSection>,
    pub current_instruction: u32,
    pub errors: Seq<ErrorView>,
}

/// The state an assembler keeps: the read-only section's offset is its length.
pub open spec fn asm_wf(v: AsmView) -> bool {
    v.ro_offset == v.ro.len()
}

/// The section a section header names: `data`, `code`, or an unknown one.
pub open spec fn section_named(name: Seq<char>) -> AssemblerSection {
    if name == "data"@ {
        AssemblerSection::Data { starting_instruction: None }
    } else if name == "code"@ {
        AssemblerSection::Code { starting_instruction: None }
    } else {
        AssemblerSection::Unknown
    }
}

/// The header every assembled program starts with: the four bytes of `-2I-`
/// (45, 50, 49, 45) and zeros up to 65 bytes.
pub open spec fn pie_header() -> Seq<u8> {
    seq![45u8, 50u8, 49u8, 45u8] + Seq::new(61, |i: int| 0u8)
}

/// The state with one more error.
pub open spec fn push_error(v: AsmView, e: ErrorView) -> AsmView {
    AsmView { errors: v.errors.push(e), ..v }
}

/// A section header: a known section is recorded and becomes the current one;
/// an unknown one changes nothing.
pub open spec fn spec_section_header(v: AsmView, name: Seq<char>) -> AsmView {
    let sec = section_named(name);
    if sec is Unknown {
        v
    } else {
        AsmView { sections: v.sections.push(sec), current_section: Some(sec), ..v }
    }
}

/// The bytes an `.asciiz` line puts in the read-only section: the string's
/// UTF-8 bytes and a terminating zero.
pub open spec fn asciiz_bytes(s: Seq<char>) -> Seq<u8> {
    encode_utf8(s).push(0u8)
}

/// An `.asciiz` line: in the first phase, when it has both a string and a label,
/// the label is moved to the end of the read-only section and the string's
/// bytes and a zero are appended there; otherwise nothing changes.
pub open spec fn spec_asciiz(v: AsmView, i: InstrView) -> AsmView {
    if v.phase != AssemblerPhase::First {
        v
    } else {
        match i.operand1 {
            Some(TokenView::IrString { name: s }) => match i.label {
                Some(TokenView::LabelDeclaration { name: l }) => AsmView {
                    symbols: with_offset(v.symbols, l, v.ro_offset),
                    ro: v.ro + asciiz_bytes(s),
                    ro_offset: (v.ro_offset + asciiz_bytes(s).len()) as u32,
                    ..v
                },
                _ => v,
            },
            _ => v,
        }
    }
}

/// A directive line: with operands, `.asciiz` is handled and any other name is
/// an unknown directive; without operands it is a section header.
pub open spec fn spec_directive(v: AsmView, i: InstrView) -> AsmView {
    match i.directive {
        Some(TokenView::Directive { name }) => if i.operand1 is Some {
            if name == "asciiz"@ {
                spec_asciiz(v, i)
            } else {
                push_error(v, ErrorView::UnknownDirectiveFound { directive: name })
            }
        } else {
            spec_section_header(v, name)
        },
        _ => v,
    }
}

/// A label declaration: a name not yet in the table is added at four bytes per
/// line before it; a name already there is an error.
pub open spec fn spec_label_declaration_step(v: AsmView, i: InstrView) -> AsmView {
    match i.label {
        Some(TokenView::LabelDeclaration { name }) => if lookup(v.symbols, name) is Some {
            push_error(v, ErrorView::SymbolAlreadyDeclared)
        } else {
            AsmView {
                symbols: v.symbols.push(
                    SymbolView {
                        name,
                        offset: (v.current_instruction * 4) as u32,
                        symbol_type: SymbolType::Label,
                    },
                ),
                ..v
            }
        },
        _ => push_error(
            v,
            ErrorView::StringConstantDeclaredWithoutLabel { instruction: v.current_instruction },
        ),
    }
}

/// One line of the first phase: labels (only inside a section) and directives.
pub open spec fn spec_first_step(v: AsmView, i: InstrView) -> AsmView {
    let v1 = if i.label is Some {
        if v.current_section is Some {
            spec_label_declaration_step(v, i)
        } else {
            push_error(
                v,
                ErrorView::NoSegmentDeclarationFound { instruction: v.current_instruction },
            )
        }
    } else {
        v
    };
    let v2 = if i.directive is Some {
        spec_directive(v1, i)
    } else {
        v1
    };
    AsmView { current_instruction: (v2.current_instruction + 1) as u32, ..v2 }
}

/// The first phase's lines, one after the other.
pub open spec fn fold_first(v: AsmView, is: Seq<InstrView>) -> AsmView
    decreases is.len(),
{
    if is.len() == 0 {
        v
    } else {
        spec_first_step(fold_first(v, is.drop_last()), is.last())
    }
}

/// The first phase: every line in turn, then the assembler is in its second phase.
pub open spec fn spec_first_phase(v: AsmView, is: Seq<InstrView>) -> AsmView {
    AsmView { phase: AssemblerPhase::Second, ..fold_first(v, is) }
}

/// One line of the second phase: an instruction's bytecode, and directives.
pub open spec fn spec_second_step(v: AsmView, i: InstrView) -> (AsmView, Seq<u8>) {
    let bytes = if i.opcode is Some {
        encode(i, v.symbols)
    } else {
        Seq::empty()
    };
    let v2 = if i.directive is Some {
        spec_directive(v, i)
    } else {
        v
    };
    (AsmView { current_instruction: (v2.current_instruction + 1) as u32, ..v2 }, bytes)
}

/// The second phase's lines, one after the other, and their bytecode.
pub open spec fn fold_second(v: AsmView, is: Seq<InstrView>) -> (AsmView, Seq<u8>)
    decreases is.len(),
{
    if is.len() == 0 {
        (v, Seq::empty())
    } else {
        let (w, b) = fold_second(v, is.drop_last());
        let (w2, b2) = spec_second_step(w, is.last());
        (w2, b + b2)
    }
}

/// The second phase: the line counter starts again at zero, and the bytecode
/// of every instruction, one after the other.
pub open spec fn spec_second_phase(v: AsmView, is: Seq<InstrView>) -> (AsmView, Seq<u8>) {
    fold_second(AsmView { current_instruction: 0, ..v }, is)
}

/// The text of the error for a source that holds no line the grammar accepts.
pub open spec fn parse_error_text() -> Seq<char> {
    "the source does not start with an instruction or a directive"@
}

/// The symbol a line adds when labels are extracted at offset `c`.
pub open spec fn label_of(i: InstrView, c: u32) -> Seq<SymbolView> {
    match i.label {
        Some(TokenView::LabelDeclaration { name }) => seq![
            SymbolView { name, offset: c, symbol_type: SymbolType::Label },
        ],
        _ => Seq::empty(),
    }
}

/// The labels of a program, each at four bytes per line before it.
pub open spec fn labels_of(is: Seq<InstrView>) -> Seq<SymbolView>
    decreases is.len(),
{
    if is.len() == 0 {
        Seq::empty()
    } else {
        labels_of(is.drop_last()) + label_of(is.last(), ((is.len() - 1) * 4) as u32)
    }
}

/// Whether the sections seen include a data section and a code section.
pub open spec fn has_data_and_code(secs: Seq<AssemblerSection>) -> bool {
    &&& exists|j: int| 0 <= j < secs.len() && (#[trigger] secs[j]) is Data
    &&& exists|j: int| 0 <= j < secs.len() && (#[trigger] secs[j]) is Code
}

/// Whether some line of the program is a directive.
pub open spec fn has_directive(is: Seq<InstrView>) -> bool {
    exists|j: int| 0 <= j < is.len() && (#[trigger] is[j]).directive is Some
}

/// Assembling `s`: parse it. A source made of instructions alone assembles to
/// their bytecode: its labels stand for four bytes per line before them, and
/// no header or section is asked for. A source with directives is a full
/// program: run the first phase; fail with the errors found so far if there
/// are any, or if no data section or no code section was declared; else run
/// the second phase and give the header and the bytecode.
pub open spec fn spec_assemble(v: AsmView, s: Seq<char>) -> (AsmView, Result<
    Seq<u8>,
    Seq<ErrorView>,
>) {
    match spec_program(s, 0) {
        None => (v, Err(seq![ErrorView::ParseError { error: parse_error_text() }])),
        Some((_, is)) => if !has_directive(is) {
            let v1 = AsmView {
                symbols: v.symbols + labels_of(is),
                phase: AssemblerPhase::Second,
                ..v
            };
            (v1, Ok(encode_all(is, v1.symbols)))
        } else {
            let v1 = spec_first_phase(v, is);
            if v1.errors.len() > 0 {
                (v1, Err(v1.errors))
            } else if !has_data_and_code(v1.sections) {
                let v2 = push_error(v1, ErrorView::InsufficientSections);
                (v2, Err(v2.errors))
            } else {
                let (v3, body) = spec_second_phase(v1, is);
                (v3, Ok(pie_header() + body))
            }
        },
    }
}

/// The read-only bytes a line's string constant takes when the line has a
/// label.
pub open spec fn asciiz_need(i: InstrView) -> nat {
    match (i.operand1, i.label) {
        (Some(TokenView::IrString { name: s }), Some(TokenView::LabelDeclaration { .. })) =>
            asciiz_bytes(s).len(),
        _ => 0,
    }
}

/// The read-only bytes an `.asciiz` line can add.
pub open spec fn ro_need(i: InstrView) -> nat {
    match i.directive {
        Some(TokenView::Directive { name }) => if name == "asciiz"@ {
            asciiz_need(i)
        } else {
            0
        },
        _ => 0,
    }
}

/// The read-only bytes a program's `.asciiz` lines can add.
pub open spec fn ro_need_all(is: Seq<InstrView>) -> nat
    decreases is.len(),
{
    if is.len() == 0 {
        0
    } else {
        ro_need_all(is.drop_last()) + ro_need(is.last())
    }
}

} // verus!
