//! Instructions: an optional label, an opcode and up to three operands; and
//! what an instruction assembles to.
use vstd::prelude::*;

use super::label_parsers::{parse_label_declaration, spec_label_declaration};
use super::opcode_parsers::{parse_opcode, spec_opcode};
use super::operand_parsers::{parse_operand, spec_operand};
use super::directive_parsers::{parse_directive_combined, spec_directive_combined};
use super::scanner::chars_of;
use super::symbol_table::{lookup, SymbolTable, SymbolView};
use super::{ParseError, Token, TokenView};
use crate::instruction::opcode_code;

verus! {

/// One line of assembly: an instruction (with an opcode) or a directive.
#[derive(Debug, PartialEq, Clone)]
pub struct AssemblerInstruction {
    pub opcode: Option<Token>,
    pub label: Option<Token>,
    pub directive: Option<Token>,
    pub operand1: Option<Token>,
    pub operand2: Option<Token>,
    pub operand3: Option<Token>,
}

/// An instruction with its tokens' text as characters.
pub struct InstrView {
    pub opcode: Option<TokenView>,
    pub label: Option<TokenView>,
    pub directive: Option<TokenView>,
    pub operand1: Option<TokenView>,
    pub operand2: Option<TokenView>,
    pub operand3: Option<TokenView>,
}

/// An optional token, viewed.
pub open spec fn opt_view(t: Option<Token>) -> Option<TokenView> {
    match t {
        Some(t) => Some(t@),
        None => None,
    }
}

impl View for AssemblerInstruction {
    type V = InstrView;

    open spec fn view(&self) -> InstrView {
        InstrView {
            opcode: opt_view(self.opcode),
            label: opt_view(self.label),
            directive: opt_view(self.directive),
            operand1: opt_view(self.operand1),
            operand2: opt_view(self.operand2),
            operand3: opt_view(self.operand3),
        }
    }
}

/// What a rule gives when it matches nothing at `p`: no token, and `p`.
pub open spec fn opt_token(r: Option<(int, TokenView)>, p: int) -> (int, Option<TokenView>) {
    match r {
        Some((q, t)) => (q, Some(t)),
        None => (p, None),
    }
}

/// Up to three operands at `p`, each optional, and the position after them.
pub open spec fn spec_operands(s: Seq<char>, p: int) -> (int, Option<TokenView>, Option<
    TokenView,
>, Option<TokenView>) {
    let (p1, o1) = opt_token(spec_operand(s, p), p);
    let (p2, o2) = opt_token(spec_operand(s, p1), p1);
    let (p3, o3) = opt_token(spec_operand(s, p2), p2);
    (p3, o1, o2, o3)
}

/// An instruction at `p`: an optional label declaration, an opcode and up to
/// three operands.
pub open spec fn spec_instruction_one(s: Seq<char>, p: int) -> Option<(int, InstrView)> {
    let (p1, l) = opt_token(spec_label_declaration(s, p), p);
    match spec_opcode(s, p1) {
        Some((p2, o)) => {
            let (p3, o1, o2, o3) = spec_operands(s, p2);
            Some(
                (
                    p3,
                    InstrView {
                        opcode: Some(o),
                        label: l,
                        directive: None,
                        operand1: o1,
                        operand2: o2,
                        operand3: o3,
                    },
                ),
            )
        },
        None => None,
    }
}

/// A line of assembly at `p`: an instruction, or else a directive.
pub open spec fn spec_instruction(s: Seq<char>, p: int) -> Option<(int, InstrView)> {
    if spec_instruction_one(s, p) is Some {
        spec_instruction_one(s, p)
    } else {
        spec_directive_combined(s, p)
    }
}

/// What a line rule gives: the position after the line, and the line.
pub open spec fn instr_result_view(r: Option<(usize, AssemblerInstruction)>) -> Option<
    (int, InstrView),
> {
    match r {
        Some((q, i)) => Some((q as int, i@)),
        None => None,
    }
}

/// `r` is what a rule whose meaning is `expect` gives on the whole of `s`.
pub open spec fn instr_parsed(
    r: Result<(&str, AssemblerInstruction), ParseError>,
    s: Seq<char>,
    expect: Option<(int, InstrView)>,
) -> bool {
    match expect {
        Some((q, i)) => r matches Ok((rest, ins)) && rest@ == s.subrange(q, s.len() as int) && ins@
            == i,
        None => r is Err,
    }
}

/// Reads up to three operands at position `p` of `cs`, the characters of `input`.
pub fn parse_operands(input: &str, cs: &Vec<char>, p: usize) -> (r: (
    usize,
    Option<Token>,
    Option<Token>,
    Option<Token>,
))
    requires
        cs@ == input@,
        p <= cs@.len(),
    ensures
        (r.0 as int, opt_view(r.1), opt_view(r.2), opt_view(r.3)) == spec_operands(cs@, p as int),
        p <= r.0 <= cs@.len(),
{
    let (p1, o1) = match parse_operand(input, cs, p) {
        Some((q, t)) => (q, Some(t)),
        None => (p, None),
    };
    let (p2, o2) = match parse_operand(input, cs, p1) {
        Some((q, t)) => (q, Some(t)),
        None => (p1, None),
    };
    let (p3, o3) = match parse_operand(input, cs, p2) {
        Some((q, t)) => (q, Some(t)),
        None => (p2, None),
    };
    (p3, o1, o2, o3)
}

/// Reads an instruction at position `p` of `cs`, the characters of `input`.
pub fn parse_instruction_one(input: &str, cs: &Vec<char>, p: usize) -> (r: Option<
    (usize, AssemblerInstruction),
>)
    requires
        cs@ == input@,
        p <= cs@.len(),
    ensures
        instr_result_view(r) == spec_instruction_one(cs@, p as int),
        r matches Some((q, _)) ==> p < q <= cs@.len(),
{
    let (p1, l) = match parse_label_declaration(input, cs, p) {
        Some((q, t)) => (q, Some(t)),
        None => (p, None),
    };
    match parse_opcode(cs, p1) {
        Some((p2, o)) => {
            let (p3, o1, o2, o3) = parse_operands(input, cs, p2);
            Some(
                (
                    p3,
                    AssemblerInstruction {
                        opcode: Some(o),
                        label: l,
                        directive: None,
                        operand1: o1,
                        operand2: o2,
                        operand3: o3,
                    },
                ),
            )
        },
        None => None,
    }
}

/// Reads a line of assembly at position `p` of `cs`, the characters of `input`.
pub fn parse_instruction(input: &str, cs: &Vec<char>, p: usize) -> (r: Option<
    (usize, AssemblerInstruction),
>)
    requires
        cs@ == input@,
        p <= cs@.len(),
    ensures
        instr_result_view(r) == spec_instruction(cs@, p as int),
        r matches Some((q, _)) ==> p < q <= cs@.len(),
{
    let r = parse_instruction_one(input, cs, p);
    if r.is_some() {
        return r;
    }
    parse_directive_combined(input, cs, p)
}

/// Hands out the rest of `input` after position `r`'s instruction.
pub fn finish_instruction<'a>(
    input: &'a str,
    n: usize,
    r: Option<(usize, AssemblerInstruction)>,
) -> (res: Result<
    (&'a str, AssemblerInstruction),
    ParseError,
>)
    requires
        n == input@.len(),
        r matches Some((q, _)) ==> q <= n,
    ensures
        instr_parsed(res, input@, instr_result_view(r)),
{
    match r {
        Some((q, i)) => Ok((input.substring_char(q, n), i)),
        None => Err(ParseError::NoMatch),
    }
}

/// Parses an instruction (not a directive) at the start of `input`.
pub fn instruction_one(input: &str) -> (r: Result<(&str, AssemblerInstruction), ParseError>)
    ensures
        instr_parsed(r, input@, spec_instruction_one(input@, 0)),
{
    let cs = chars_of(input);
    let i = parse_instruction_one(input, &cs, 0);
    finish_instruction(input, cs.len(), i)
}

/// Parses an instruction or a directive at the start of `input`.
pub fn instruction(input: &str) -> (r: Result<(&str, AssemblerInstruction), ParseError>)
    ensures
        instr_parsed(r, input@, spec_instruction(input@, 0)),
{
    let cs = chars_of(input);
    let i = parse_instruction(input, &cs, 0);
    finish_instruction(input, cs.len(), i)
}

/// The bytes an operand assembles to: a register's number; an integer's low 16
/// bits, high byte first; a label's offset in the same form when the table
/// holds the label, and nothing when it does not; nothing for other tokens.
pub open spec fn operand_bytes(t: TokenView, syms: Seq<SymbolView>) -> Seq<u8> {
    match t {
        TokenView::Register { reg_num } => seq![reg_num],
        TokenView::IntegerOperand { value } => seq![
            ((value as u16) >> 8u16) as u8,
            (value as u16) as u8,
        ],
        TokenView::LabelUsage { name } => match lookup(syms, name) {
            Some(off) => seq![(off >> 8u32) as u8, off as u8],
            None => Seq::empty(),
        },
        _ => Seq::empty(),
    }
}

/// The bytes of an optional operand.
pub open spec fn opt_operand_bytes(o: Option<TokenView>, syms: Seq<SymbolView>) -> Seq<u8> {
    match o {
        Some(t) => operand_bytes(t, syms),
        None => Seq::empty(),
    }
}

/// The opcode's byte, when the opcode field holds an opcode.
pub open spec fn opcode_bytes(o: Option<TokenView>) -> Seq<u8> {
    match o {
        Some(TokenView::Op { code }) => seq![opcode_code(code)],
        _ => Seq::empty(),
    }
}

/// The bytecode of a line: the opcode's byte, when it has an opcode, then
/// the operands' bytes.
pub open spec fn encode(i: InstrView, syms: Seq<SymbolView>) -> Seq<u8> {
    opcode_bytes(i.opcode) + opt_operand_bytes(i.operand1, syms) + opt_operand_bytes(
        i.operand2,
        syms,
    ) + opt_operand_bytes(i.operand3, syms)
}

impl AssemblerInstruction {
    /// Whether the line declares a label.
    pub fn is_label(&self) -> (r: bool)
        ensures
            r == self.label.is_some(),
    {
        self.label.is_some()
    }

    /// Whether the line is an instruction (has an opcode).
    pub fn is_opcode(&self) -> (r: bool)
        ensures
            r == self.opcode.is_some(),
    {
        self.opcode.is_some()
    }

    /// Whether the line is a directive.
    pub fn is_directive(&self) -> (r: bool)
        ensures
            r == self.directive.is_some(),
    {
        self.directive.is_some()
    }

    /// Whether the line has a first operand.
    pub fn has_operands(&self) -> (r: bool)
        ensures
            r == self.operand1.is_some(),
    {
        self.operand1.is_some()
    }

    /// The name of the label the line declares.
    pub fn get_label_name(&self) -> (r: Option<String>)
        ensures
            match self@.label {
                Some(TokenView::LabelDeclaration { name }) => r matches Some(n) && n@ == name,
                _ => r is None,
            },
    {
        match &self.label {
            Some(Token::LabelDeclaration { name }) => Some(name.clone()),
            _ => None,
        }
    }

    /// The name of the line's directive.
    pub fn get_directive_name(&self) -> (r: Option<String>)
        ensures
            match self@.directive {
                Some(TokenView::Directive { name }) => r matches Some(n) && n@ == name,
                _ => r is None,
            },
    {
        match &self.directive {
            Some(Token::Directive { name }) => Some(name.clone()),
            _ => None,
        }
    }

    /// The string constant in the line's first operand.
    pub fn get_string_constant(&self) -> (r: Option<String>)
        ensures
            match self@.operand1 {
                Some(TokenView::IrString { name }) => r matches Some(n) && n@ == name,
                _ => r is None,
            },
    {
        match &self.operand1 {
            Some(Token::IrString { name }) => Some(name.clone()),
            _ => None,
        }
    }

    /// The bytecode of this line, with labels looked up in `symbols`.
    pub fn to_bytes(&self, symbols: &SymbolTable) -> (r: Vec<u8>)
        ensures
            r@ == encode(self@, symbols@),
    {
        let mut results: Vec<u8> = Vec::new();
        match &self.opcode {
            Some(Token::Op { code }) => {
                results.push(code.code());
            },
            _ => {},
        }
        extract_operand(&self.operand1, &mut results, symbols);
        extract_operand(&self.operand2, &mut results, symbols);
        extract_operand(&self.operand3, &mut results, symbols);
        assert(results@ =~= encode(self@, symbols@));
        results
    }
}

/// Appends the bytes of an optional operand to `results`.
fn extract_operand(t: &Option<Token>, results: &mut Vec<u8>, symbols: &SymbolTable)
    ensures
        final(results)@ == old(results)@ + opt_operand_bytes(opt_view(*t), symbols@),
{
    match t {
        Some(Token::Register { reg_num }) => {
            results.push(*reg_num);
        },
        Some(Token::IntegerOperand { value }) => {
            let converted = *value as u16;
            results.push((converted >> 8) as u8);
            results.push(converted as u8);
        },
        Some(Token::LabelUsage { name }) => {
            match symbols.symbol_value(name.as_str()) {
                Some(v) => {
                    results.push((v >> 8) as u8);
                    results.push(v as u8);
                },
                None => {},
            }
        },
        _ => {},
    }
    proof {
        assert(final(results)@ =~= old(results)@ + opt_operand_bytes(opt_view(*t), symbols@));
    }
}

} // verus!
