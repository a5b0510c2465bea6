//! The assembler: tokens of the assembly language, its grammar, the symbol
//! table and the two passes that turn a program into bytecode.
use vstd::prelude::*;

use crate::instruction::Opcode;
use instruction_parsers::{AssemblerInstruction, InstrView};
use model::{
    asciiz_need, asm_wf, asciiz_bytes, fold_first, has_data_and_code, has_directive, label_of,
    labels_of, fold_second,
    parse_error_text, pie_header, push_error,
    ro_need, ro_need_all, section_named, spec_asciiz, spec_assemble, spec_directive,
    spec_first_phase, spec_label_declaration_step, spec_second_phase, spec_section_header, AsmView,
    ErrorView,
};
use bounds::lemma_instructions_bounds;
use program_parsers::{encode_lines, program, Program};
use symbol_table::{str_eq, SymbolView};

pub mod scanner;
pub mod symbol_table;
pub mod register_parsers;
pub mod label_parsers;
pub mod opcode_parsers;
pub mod operand_parsers;
pub mod directive_parsers;
pub mod instruction_parsers;
pub mod program_parsers;
pub mod model;
pub mod laws;
pub mod bounds;

pub use symbol_table::{Symbol, SymbolTable, SymbolType};

verus! {

/// A token of the assembly language.
#[derive(Debug, PartialEq, Clone)]
pub enum Token {
    Op { code: Opcode },
    Register { reg_num: u8 },
    IntegerOperand { value: i32 },
    LabelDeclaration { name: String },
    LabelUsage { name: String },
    Directive { name: String },
    IrString { name: String },
}

/// A token with its text as characters.
pub enum TokenView {
    Op { code: Opcode },
    Register { reg_num: u8 },
    IntegerOperand { value: i32 },
    LabelDeclaration { name: Seq<char> },
    LabelUsage { name: Seq<char> },
    Directive { name: Seq<char> },
    IrString { name: Seq<char> },
}

impl View for Token {
    type V = TokenView;

    open spec fn view(&self) -> TokenView {
        match self {
            Token::Op { code } => TokenView::Op { code: *code },
            Token::Register { reg_num } => TokenView::Register { reg_num: *reg_num },
            Token::IntegerOperand { value } => TokenView::IntegerOperand { value: *value },
            Token::LabelDeclaration { name } => TokenView::LabelDeclaration { name: name@ },
            Token::LabelUsage { name } => TokenView::LabelUsage { name: name@ },
            Token::Directive { name } => TokenView::Directive { name: name@ },
            Token::IrString { name } => TokenView::IrString { name: name@ },
        }
    }
}

/// The input matched none of the forms a grammar rule accepts.
#[derive(Debug, PartialEq, Eq, Clone, Copy)]
pub enum ParseError {
    NoMatch,
}

/// What a token rule gives at position `p`: the position after the token and
/// the whitespace that follows it, and the token.
pub open spec fn token_result_view(r: Option<(usize, Token)>) -> Option<(int, TokenView)> {
    match r {
        Some((q, t)) => Some((q as int, t@)),
        None => None,
    }
}

/// `r` is what a rule whose meaning is `expect` gives on the whole of `s`:
/// the rest of the input after the token, and the token.
pub open spec fn token_parsed(
    r: Result<(&str, Token), ParseError>,
    s: Seq<char>,
    expect: Option<(int, TokenView)>,
) -> bool {
    match expect {
        Some((q, t)) => r matches Ok((rest, tok)) && rest@ == s.subrange(q, s.len() as int) && tok@
            == t,
        None => r is Err,
    }
}

/// Hands out the rest of `input` after position `r`'s token.
pub fn finish_token<'a>(input: &'a str, n: usize, r: Option<(usize, Token)>) -> (res: Result<
    (&'a str, Token),
    ParseError,
>)
    requires
        n == input@.len(),
        r matches Some((q, _)) ==> q <= n,
    ensures
        token_parsed(res, input@, token_result_view(r)),
{
    match r {
        Some((q, t)) => Ok((input.substring_char(q, n), t)),
        None => Err(ParseError::NoMatch),
    }
}

/// The phase an assembler is in.
#[derive(Debug, PartialEq, Eq, Clone, Copy)]
pub enum AssemblerPhase {
    First,
    Second,
}

impl Default for AssemblerPhase {
    fn default() -> (r: Self)
        ensures
            r == AssemblerPhase::First,
    {
        AssemblerPhase::First
    }
}

/// A section of a program, declared by a header such as `.data` or `.code`.
#[derive(Debug, PartialEq, Eq, Clone, Copy)]
pub enum AssemblerSection {
    Data { starting_instruction: Option<u32> },
    Code { starting_instruction: Option<u32> },
    Unknown,
}

impl Default for AssemblerSection {
    fn default() -> (r: Self)
        ensures
            r == AssemblerSection::Unknown,
    {
        AssemblerSection::Unknown
    }
}

impl<'a> From<&'a str> for AssemblerSection {
    fn from(name: &'a str) -> (r: AssemblerSection) {
        if str_eq(name, "data") {
            AssemblerSection::Data { starting_instruction: None }
        } else if str_eq(name, "code") {
            AssemblerSection::Code { starting_instruction: None }
        } else {
            AssemblerSection::Unknown
        }
    }
}

impl<'a> vstd::std_specs::convert::FromSpecImpl<&'a str> for AssemblerSection {
    open spec fn obeys_from_spec() -> bool {
        true
    }

    open spec fn from_spec(name: &'a str) -> AssemblerSection {
        section_named(name@)
    }
}

/// What can go wrong while assembling.
#[derive(Debug, PartialEq, Clone)]
pub enum AssemblerError {
    NoSegmentDeclarationFound { instruction: u32 },
    StringConstantDeclaredWithoutLabel { instruction: u32 },
    SymbolAlreadyDeclared,
    UnknownDirectiveFound { directive: String },
    InsufficientSections,
    ParseError { error: String },
}

impl View for AssemblerError {
    type V = ErrorView;

    open spec fn view(&self) -> ErrorView {
        match self {
            AssemblerError::NoSegmentDeclarationFound { instruction } =>
                ErrorView::NoSegmentDeclarationFound { instruction: *instruction },
            AssemblerError::StringConstantDeclaredWithoutLabel { instruction } =>
                ErrorView::StringConstantDeclaredWithoutLabel { instruction: *instruction },
            AssemblerError::SymbolAlreadyDeclared => ErrorView::SymbolAlreadyDeclared,
            AssemblerError::UnknownDirectiveFound { directive } =>
                ErrorView::UnknownDirectiveFound { directive: directive@ },
            AssemblerError::InsufficientSections => ErrorView::InsufficientSections,
            AssemblerError::ParseError { error } => ErrorView::ParseError { error: error@ },
        }
    }
}

impl AssemblerError {
    /// A copy of this error.
    pub fn duplicate(&self) -> (r: AssemblerError)
        ensures
            r@ == self@,
    {
        match self {
            AssemblerError::NoSegmentDeclarationFound { instruction } =>
                AssemblerError::NoSegmentDeclarationFound { instruction: *instruction },
            AssemblerError::StringConstantDeclaredWithoutLabel { instruction } =>
                AssemblerError::StringConstantDeclaredWithoutLabel { instruction: *instruction },
            AssemblerError::SymbolAlreadyDeclared => AssemblerError::SymbolAlreadyDeclared,
            AssemblerError::UnknownDirectiveFound { directive } =>
                AssemblerError::UnknownDirectiveFound { directive: directive.clone() },
            AssemblerError::InsufficientSections => AssemblerError::InsufficientSections,
            AssemblerError::ParseError { error } => AssemblerError::ParseError {
                error: error.clone(),
            },
        }
    }
}

/// A list of errors, viewed.
pub open spec fn errors_view(es: Seq<AssemblerError>) -> Seq<ErrorView> {
    es.map_values(|e: AssemblerError| e@)
}

/// What an assembly gives: the bytecode, or the errors found.
pub open spec fn assembled_view(r: Result<Vec<u8>, Vec<AssemblerError>>) -> Result<
    Seq<u8>,
    Seq<ErrorView>,
> {
    match r {
        Ok(b) => Ok(b@),
        Err(es) => Err(errors_view(es@)),
    }
}

/// The state of a new assembler.
pub open spec fn fresh_assembler() -> AsmView {
    AsmView {
        phase: AssemblerPhase::First,
        symbols: Seq::empty(),
        ro: Seq::empty(),
        bytecode: Seq::empty(),
        ro_offset: 0,
        sections: Seq::empty(),
        current_section: None,
        current_instruction: 0,
        errors: Seq::empty(),
    }
}

/// A two-pass assembler from Iridium assembly to bytecode.
#[derive(Debug)]
pub struct Assembler {
    /// Tracks which phase the assember is in
    pub phase: AssemblerPhase,
    /// Symbol table for constants and variables
    pub symbols: SymbolTable,
    /// The read-only data section constants are put in
    pub ro: Vec<u8>,
    /// The compiled bytecode generated from the assembly instructions
    pub bytecode: Vec<u8>,
    /// Tracks the current offset of the read-only section
    pub ro_offset: u32,
    /// A list of all the sections we've seen in the code
    pub sections: Vec<AssemblerSection>,
    /// The current section the assembler is in
    pub current_section: Option<AssemblerSection>,
    /// The current instruction the assembler is converting to bytecode
    pub current_instruction: u32,
    /// Any errors we find along the way
    pub errors: Vec<AssemblerError>,
}

impl View for Assembler {
    type V = AsmView;

    open spec fn view(&self) -> AsmView {
        AsmView {
            phase: self.phase,
            symbols: self.symbols@,
            ro: self.ro@,
            bytecode: self.bytecode@,
            ro_offset: self.ro_offset,
            sections: self.sections@,
            current_section: self.current_section,
            current_instruction: self.current_instruction,
            errors: errors_view(self.errors@),
        }
    }
}

impl Default for Assembler {
    fn default() -> (r: Self)
        ensures
            r@ == fresh_assembler(),
    {
        Assembler::new()
    }
}

/// The first of the header's bytes.
pub const PIE_HEADER_PREFIX: [u8; 4] = [45, 50, 49, 45];

/// The header is zero-filled after its prefix through this position.
pub const PIE_HEADER_LENGTH: usize = 64;

impl Assembler {
    /// A new assembler, in its first phase, with nothing declared.
    pub fn new() -> (r: Assembler)
        ensures
            r@ == fresh_assembler(),
            asm_wf(r@),
    {
        let r = Assembler {
            phase: AssemblerPhase::First,
            symbols: SymbolTable::new(),
            ro: Vec::new(),
            bytecode: Vec::new(),
            ro_offset: 0,
            sections: Vec::new(),
            current_section: None,
            current_instruction: 0,
            errors: Vec::new(),
        };
        assert(errors_view(r.errors@) =~= Seq::<ErrorView>::empty());
        r
    }

    fn record_error(&mut self, e: AssemblerError)
        ensures
            final(self)@ == push_error(old(self)@, e@),
    {
        let ghost ev = e@;
        self.errors.push(e);
        assert(errors_view(self.errors@) =~= errors_view(old(self).errors@).push(ev));
    }

    fn copy_errors(&self) -> (r: Vec<AssemblerError>)
        ensures
            errors_view(r@) == self@.errors,
    {
        let mut r: Vec<AssemblerError> = Vec::new();
        let n = self.errors.len();
        let mut k: usize = 0;
        while k < n
            invariant
                n == self.errors@.len(),
                k <= n,
                errors_view(r@) =~= errors_view(self.errors@).subrange(0, k as int),
            decreases n - k,
        {
            let e = self.errors[k].duplicate();
            let ghost r0 = r@;
            r.push(e);
            proof {
                assert(errors_view(r@) =~= errors_view(r0).push(e@));
                assert(errors_view(self.errors@).subrange(0, k + 1) =~= errors_view(
                    self.errors@,
                ).subrange(0, k as int).push(self.errors@[k as int]@));
            }
            k = k + 1;
        }
        r
    }

    /// The header that starts every assembled program.
    pub fn write_pie_header(&self) -> (header: Vec<u8>)
        ensures
            header@ == pie_header(),
    {
        let mut header: Vec<u8> = Vec::new();
        header.push(45);
        header.push(50);
        header.push(49);
        header.push(45);
        while header.len() <= PIE_HEADER_LENGTH
            invariant
                4 <= header@.len() <= 65,
                header@ =~= seq![45u8, 50u8, 49u8, 45u8] + Seq::new(
                    (header@.len() - 4) as nat,
                    |i: int| 0u8,
                ),
            decreases 65 - header@.len(),
        {
            header.push(0);
        }
        assert(header@ =~= pie_header());
        header
    }

    /// Handles a declaration of a section header, such as `.code`.
    pub fn process_section_header(&mut self, header_name: &str)
        ensures
            final(self)@ == spec_section_header(old(self)@, header_name@),
    {
        let new_section = AssemblerSection::from(header_name);
        match new_section {
            AssemblerSection::Unknown => {
                return ;
            },
            _ => {},
        }
        self.sections.push(new_section);
        self.current_section = Some(new_section);
    }

    /// Handles a declaration of a null-terminated string, such as
    /// `hello: .asciiz 'Hello!'`.
    pub fn handle_asciiz(&mut self, i: &AssemblerInstruction)
        requires
            old(self)@.phase == AssemblerPhase::First ==> old(self)@.ro_offset + asciiz_need(i@)
                <= u32::MAX,
        ensures
            final(self)@ == spec_asciiz(old(self)@, i@),
            asm_wf(old(self)@) ==> asm_wf(final(self)@),
    {
        match self.phase {
            AssemblerPhase::First => {},
            _ => {
                return ;
            },
        }
        match i.get_string_constant() {
            Some(s) => {
                match i.get_label_name() {
                    Some(name) => {
                        self.symbols.set_symbol_offset(name.as_str(), self.ro_offset);
                    },
                    None => {
                        return ;
                    },
                }
                let bytes = s.as_str().as_bytes();
                let ghost ro0 = self.ro@;
                let ghost off0 = self.ro_offset;
                let ghost st = self@;
                let n = bytes.len();
                let mut k: usize = 0;
                while k < n
                    invariant
                        n == bytes@.len(),
                        bytes@ == vstd::utf8::encode_utf8(s@),
                        k <= n,
                        self.ro@ == ro0 + bytes@.subrange(0, k as int),
                        self.ro_offset == off0 + k,
                        off0 + n + 1 <= u32::MAX,
                        self@ == (AsmView { ro: self.ro@, ro_offset: self.ro_offset, ..st }),
                    decreases n - k,
                {
                    self.ro.push(bytes[k]);
                    self.ro_offset = self.ro_offset + 1;
                    k = k + 1;
                }
                self.ro.push(0);
                self.ro_offset = self.ro_offset + 1;
                assert(bytes@.subrange(0, n as int) =~= bytes@);
                assert(self.ro@ =~= ro0 + asciiz_bytes(s@));
                assert(self.ro_offset == off0 + asciiz_bytes(s@).len());
            },
            None => {},
        }
    }
    /// Handles a directive: `.asciiz` with its string, or a section header.
    pub fn process_directive(&mut self, i: &AssemblerInstruction)
        requires
            old(self)@.phase == AssemblerPhase::First ==> old(self)@.ro_offset + ro_need(i@)
                <= u32::MAX,
        ensures
            final(self)@ == spec_directive(old(self)@, i@),
            asm_wf(old(self)@) ==> asm_wf(final(self)@),
    {
        let directive_name = match i.get_directive_name() {
            Some(name) => name,
            None => {
                return ;
            },
        };
        if i.has_operands() {
            if str_eq(directive_name.as_str(), "asciiz") {
                self.handle_asciiz(i);
            } else {
                self.record_error(
                    AssemblerError::UnknownDirectiveFound { directive: directive_name },
                );
            }
        } else {
            self.process_section_header(directive_name.as_str());
        }
    }

    /// Handles the declaration of a label such as `hello: .asciiz 'Hello'`:
    /// the label stands for four bytes per line before it.
    pub fn process_label_declaration(&mut self, i: &AssemblerInstruction)
        requires
            old(self)@.current_instruction * 4 <= u32::MAX,
        ensures
            final(self)@ == spec_label_declaration_step(old(self)@, i@),
    {
        let name = match i.get_label_name() {
            Some(name) => name,
            None => {
                self.record_error(
                    AssemblerError::StringConstantDeclaredWithoutLabel {
                        instruction: self.current_instruction,
                    },
                );
                return ;
            },
        };
        if self.symbols.has_symbol(name.as_str()) {
            self.record_error(AssemblerError::SymbolAlreadyDeclared);
            return ;
        }
        let symbol = Symbol::new(name, SymbolType::Label, self.current_instruction * 4);
        self.symbols.add_symbol(symbol);
    }

    /// Runs the first pass of the two-pass assembling process: labels go into
    /// the symbol table, directives are handled.
    pub fn process_first_phase(&mut self, p: &Program)
        requires
            old(self)@.ro_offset + ro_need_all(p@) <= u32::MAX,
            old(self)@.current_instruction + p@.len() < 0x4000_0000,
        ensures
            final(self)@ == spec_first_phase(old(self)@, p@),
            asm_wf(old(self)@) ==> asm_wf(final(self)@),
    {
        let n = p.instructions.len();
        let mut k: usize = 0;
        while k < n
            invariant
                n == p@.len(),
                k <= n,
                self@ == fold_first(old(self)@, p@.subrange(0, k as int)),
                self@.phase == old(self)@.phase,
                self@.current_instruction == old(self)@.current_instruction + k,
                self@.ro_offset <= old(self)@.ro_offset + ro_need_all(p@.subrange(0, k as int)),
                old(self)@.ro_offset + ro_need_all(p@) <= u32::MAX,
                old(self)@.current_instruction + p@.len() < 0x4000_0000,
                asm_wf(old(self)@) ==> asm_wf(self@),
            decreases n - k,
        {
            let i = &p.instructions[k];
            proof {
                assert(p@.subrange(0, k + 1).drop_last() =~= p@.subrange(0, k as int));
                assert(p@.subrange(0, k + 1).last() == i@);
                lemma_ro_need_prefix(p@, k + 1);
            }
            if i.is_label() {
                if self.current_section.is_some() {
                    self.process_label_declaration(i);
                } else {
                    self.record_error(
                        AssemblerError::NoSegmentDeclarationFound {
                            instruction: self.current_instruction,
                        },
                    );
                }
            }
            if i.is_directive() {
                self.process_directive(i);
            }
            self.current_instruction = self.current_instruction + 1;
            k = k + 1;
        }
        proof {
            assert(p@.subrange(0, n as int) =~= p@);
        }
        self.phase = AssemblerPhase::Second;
    }

    /// Runs the second pass: every instruction becomes bytecode, and directives
    /// are handled again.
    pub fn process_second_phase(&mut self, p: &Program) -> (r: Vec<u8>)
        requires
            old(self)@.phase == AssemblerPhase::First ==> old(self)@.ro_offset + ro_need_all(p@)
                <= u32::MAX,
            p@.len() <= u32::MAX,
        ensures
            (final(self)@, r@) == spec_second_phase(old(self)@, p@),
            final(self)@.current_instruction == p@.len(),
            asm_wf(old(self)@) ==> asm_wf(final(self)@),
    {
        self.current_instruction = 0;
        let ghost start = self@;
        let mut program: Vec<u8> = Vec::new();
        let n = p.instructions.len();
        let mut k: usize = 0;
        while k < n
            invariant
                n == p@.len(),
                k <= n,
                (self@, program@) == fold_second(start, p@.subrange(0, k as int)),
                self@.phase == old(self)@.phase,
                self@.current_instruction == k,
                p@.len() <= u32::MAX,
                self@.ro_offset <= old(self)@.ro_offset + ro_need_all(p@.subrange(0, k as int)),
                old(self)@.phase == AssemblerPhase::First ==> old(self)@.ro_offset + ro_need_all(
                    p@,
                ) <= u32::MAX,
                asm_wf(old(self)@) ==> asm_wf(self@),
            decreases n - k,
        {
            let i = &p.instructions[k];
            proof {
                assert(p@.subrange(0, k + 1).drop_last() =~= p@.subrange(0, k as int));
                assert(p@.subrange(0, k + 1).last() == i@);
                lemma_ro_need_prefix(p@, k + 1);
            }
            if i.is_opcode() {
                let mut bytes = i.to_bytes(&self.symbols);
                program.append(&mut bytes);
            }
            if i.is_directive() {
                self.process_directive(i);
            }
            self.current_instruction = self.current_instruction + 1;
            k = k + 1;
        }
        proof {
            assert(p@.subrange(0, n as int) =~= p@);
        }
        program
    }

    /// Assembles the source `raw`. A source of instructions alone gives their
    /// bytecode; a source with directives gives the header followed by the
    /// bytecode, or the errors found.
    pub fn assemble(&mut self, raw: &str) -> (r: Result<Vec<u8>, Vec<AssemblerError>>)
        requires
            old(self)@.ro_offset + 4 * raw@.len() <= u32::MAX,
            old(self)@.current_instruction + raw@.len() < 0x4000_0000,
        ensures
            (final(self)@, assembled_view(r)) == spec_assemble(old(self)@, raw@),
            asm_wf(old(self)@) ==> asm_wf(final(self)@),
    {
        match program(raw) {
            Ok((_remainder, program)) => {
                proof {
                    lemma_instructions_bounds(raw@, 0);
                }
                if !Self::has_directives(&program) {
                    self.extract_labels(&program);
                    self.phase = AssemblerPhase::Second;
                    return Ok(encode_lines(&program, &self.symbols));
                }
                let mut assembled_program = self.write_pie_header();
                self.process_first_phase(&program);
                if self.errors.len() != 0 {
                    return Err(self.copy_errors());
                }
                if !self.has_data_and_code() {
                    self.record_error(AssemblerError::InsufficientSections);
                    return Err(self.copy_errors());
                }
                let mut body = self.process_second_phase(&program);
                assembled_program.append(&mut body);
                Ok(assembled_program)
            },
            Err(_) => {
                let error =
                    "the source does not start with an instruction or a directive".to_owned();
                let errors = vec![AssemblerError::ParseError { error }];
                proof {
                    assert(errors_view(errors@) =~= seq![
                        ErrorView::ParseError { error: parse_error_text() },
                    ]);
                }
                Err(errors)
            },
        }
    }

    /// Whether the sections seen so far include a data and a code section.
    fn has_data_and_code(&self) -> (r: bool)
        ensures
            r == has_data_and_code(self@.sections),
    {
        let mut data = false;
        let mut code = false;
        let n = self.sections.len();
        let mut k: usize = 0;
        while k < n
            invariant
                n == self.sections@.len(),
                k <= n,
                data == exists|j: int| 0 <= j < k && (#[trigger] self.sections@[j]) is Data,
                code == exists|j: int| 0 <= j < k && (#[trigger] self.sections@[j]) is Code,
            decreases n - k,
        {
            match self.sections[k] {
                AssemblerSection::Data { .. } => {
                    data = true;
                },
                AssemblerSection::Code { .. } => {
                    code = true;
                },
                AssemblerSection::Unknown => {},
            }
            k = k + 1;
        }
        data && code
    }

    /// Whether some line of `p` is a directive.
    fn has_directives(p: &Program) -> (r: bool)
        ensures
            r == has_directive(p@),
    {
        let n = p.instructions.len();
        let mut k: usize = 0;
        while k < n
            invariant
                n == p@.len(),
                k <= n,
                forall|j: int| 0 <= j < k ==> (#[trigger] p@[j]).directive is None,
            decreases n - k,
        {
            if p.instructions[k].is_directive() {
                assert(p@[k as int].directive is Some);
                return true;
            }
            k = k + 1;
        }
        false
    }

    /// Puts every declared label in the symbol table at four bytes per line
    /// before it, in order.
    pub fn extract_labels(&mut self, p: &Program)
        requires
            p@.len() < 0x4000_0000,
        ensures
            final(self)@ == (AsmView {
                symbols: old(self)@.symbols + labels_of(p@),
                ..old(self)@
            }),
    {
        let mut c: u32 = 0;
        let n = p.instructions.len();
        let mut k: usize = 0;
        while k < n
            invariant
                n == p@.len(),
                n < 0x4000_0000,
                k <= n,
                c == 4 * k,
                self@ == (AsmView {
                    symbols: old(self)@.symbols + labels_of(p@.subrange(0, k as int)),
                    ..old(self)@
                }),
            decreases n - k,
        {
            let i = &p.instructions[k];
            proof {
                assert(p@.subrange(0, k + 1).drop_last() =~= p@.subrange(0, k as int));
                assert(p@.subrange(0, k + 1).last() == i@);
            }
            let ghost before = self@.symbols;
            if i.is_label() {
                match i.get_label_name() {
                    Some(name) => {
                        let symbol = Symbol::new(name, SymbolType::Label, c);
                        self.symbols.add_symbol(symbol);
                    },
                    None => {},
                }
            }
            proof {
                assert(labels_of(p@.subrange(0, k + 1)) == labels_of(p@.subrange(0, k as int))
                    + label_of(i@, c));
                assert(self@.symbols =~= before + label_of(i@, c));
                assert(old(self)@.symbols + labels_of(p@.subrange(0, k + 1)) =~= before
                    + label_of(i@, c));
            }
            c = c + 4;
            k = k + 1;
        }
        proof {
            assert(p@.subrange(0, n as int) =~= p@);
        }
    }
}

proof fn lemma_ro_need_prefix(is: Seq<InstrView>, k: int)
    requires
        0 <= k <= is.len(),
    ensures
        ro_need_all(is.subrange(0, k)) <= ro_need_all(is),
    decreases is.len() - k,
{
    if k < is.len() {
        lemma_ro_need_prefix(is, k + 1);
        assert(is.subrange(0, k + 1).drop_last() =~= is.subrange(0, k));
    } else {
        assert(is.subrange(0, k) =~= is);
    }
}

} // verus!
