//! Programs: one or more instructions or directives.
use vstd::prelude::*;

use super::instruction_parsers::{
    encode, parse_instruction, spec_instruction, AssemblerInstruction, InstrView,
};
use super::scanner::chars_of;
use super::symbol_table::{SymbolTable, SymbolView};
use super::ParseError;

verus! {

/// A parsed program: its lines in order.
#[derive(Debug, PartialEq)]
pub struct Program {
    pub instructions: Vec<AssemblerInstruction>,
}

impl View for Program {
    type V = Seq<InstrView>;

    open spec fn view(&self) -> Seq<InstrView> {
        self.instructions@.map_values(|i: AssemblerInstruction| i@)
    }
}

/// As many lines as parse one after the other from `p`, and the position after
/// them.
pub open spec fn spec_instructions(s: Seq<char>, p: int) -> (int, Seq<InstrView>)
    decreases s.len() - p,
{
    match spec_instruction(s, p) {
        Some((q, i)) => if p < q <= s.len() {
            let (r, rest) = spec_instructions(s, q);
            (r, seq![i] + rest)
        } else {
            (p, Seq::empty())
        },
        None => (p, Seq::empty()),
    }
}

/// A program at `p`: at least one line, and as many as follow.
pub open spec fn spec_program(s: Seq<char>, p: int) -> Option<(int, Seq<InstrView>)> {
    let (r, is) = spec_instructions(s, p);
    if is.len() == 0 {
        None
    } else {
        Some((r, is))
    }
}

/// The bytecode of a sequence of lines, one after the other.
pub open spec fn encode_all(is: Seq<InstrView>, syms: Seq<SymbolView>) -> Seq<u8>
    decreases is.len(),
{
    if is.len() == 0 {
        Seq::empty()
    } else {
        encode_all(is.drop_last(), syms) + encode(is.last(), syms)
    }
}

/// Reads a program at position `p` of `cs`, the characters of `input`.
pub fn parse_program(input: &str, cs: &Vec<char>, p: usize) -> (r: Option<(usize, Program)>)
    requires
        cs@ == input@,
        p <= cs@.len(),
    ensures
        match spec_program(cs@, p as int) {
            Some((q, is)) => r matches Some((rq, prog)) && rq == q && prog@ == is,
            None => r is None,
        },
        r matches Some((q, _)) ==> p < q <= cs@.len(),
{
    let mut instructions: Vec<AssemblerInstruction> = Vec::new();
    let mut pos = p;
    loop
        invariant
            cs@ == input@,
            p <= pos <= cs@.len(),
            instructions@.len() == 0 ==> pos == p,
            spec_instructions(cs@, p as int) == (
                spec_instructions(cs@, pos as int).0,
                instructions@.map_values(|i: AssemblerInstruction| i@) + spec_instructions(
                    cs@,
                    pos as int,
                ).1,
            ),
        ensures
            spec_instruction(cs@, pos as int) is None,
            p <= pos <= cs@.len(),
            instructions@.len() == 0 ==> pos == p,
            spec_instructions(cs@, p as int) == (
                spec_instructions(cs@, pos as int).0,
                instructions@.map_values(|i: AssemblerInstruction| i@) + spec_instructions(
                    cs@,
                    pos as int,
                ).1,
            ),
        decreases cs@.len() - pos,
    {
        let ghost before = instructions@.map_values(|i: AssemblerInstruction| i@);
        match parse_instruction(input, cs, pos) {
            Some((q, i)) => {
                let ghost iv = i@;
                instructions.push(i);
                proof {
                    let rest = spec_instructions(cs@, q as int).1;
                    assert(instructions@.map_values(|i: AssemblerInstruction| i@) =~= before.push(
                        iv,
                    ));
                    assert(before + (seq![iv] + rest) =~= before.push(iv) + rest);
                }
                pos = q;
            },
            None => {
                break ;
            },
        }
    }
    proof {
        assert(spec_instructions(cs@, pos as int).1 =~= Seq::<InstrView>::empty());
        assert(instructions@.map_values(|i: AssemblerInstruction| i@) + Seq::<InstrView>::empty()
            =~= instructions@.map_values(|i: AssemblerInstruction| i@));
    }
    if instructions.len() == 0 {
        None
    } else {
        Some((pos, Program { instructions }))
    }
}

/// Parses a program at the start of `input`; gives the input that follows the
/// last line it could parse, and the program.
pub fn program(input: &str) -> (r: Result<(&str, Program), ParseError>)
    ensures
        match spec_program(input@, 0) {
            Some((q, is)) => r matches Ok((rest, prog)) && rest@ == input@.subrange(
                q,
                input@.len() as int,
            ) && prog@ == is,
            None => r is Err,
        },
{
    let cs = chars_of(input);
    match parse_program(input, &cs, 0) {
        Some((q, prog)) => Ok((input.substring_char(q, cs.len()), prog)),
        None => Err(ParseError::NoMatch),
    }
}

/// The bytecode of every line of `p`, one after the other, with labels looked
/// up in `symbols`.
pub fn encode_lines(p: &Program, symbols: &SymbolTable) -> (r: Vec<u8>)
    ensures
        r@ == encode_all(p@, symbols@),
{
    let mut program: Vec<u8> = Vec::new();
    let n = p.instructions.len();
    let mut k: usize = 0;
    while k < n
        invariant
            n == p@.len(),
            k <= n,
            program@ == encode_all(p@.subrange(0, k as int), symbols@),
        decreases n - k,
    {
        let mut bytes = p.instructions[k].to_bytes(symbols);
        program.append(&mut bytes);
        proof {
            assert(p@.subrange(0, k + 1).drop_last() =~= p@.subrange(0, k as int));
        }
        k = k + 1;
    }
    proof {
        assert(p@.subrange(0, n as int) =~= p@);
    }
    program
}

impl Program {
    /// The bytecode of every line of the program, one after the other, with
    /// no label known.
    pub fn to_bytes(&self) -> (r: Vec<u8>)
        ensures
            r@ == encode_all(self@, Seq::empty()),
    {
        let symbols = SymbolTable::new();
        encode_lines(self, &symbols)
    }
}

} // verus!
