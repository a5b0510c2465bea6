//! The decisions of the assembly REPL: each line the user types is recorded,
//! and is a command or a program whose bytecode joins the program so far.
use vstd::prelude::*;

use crate::assembler::program_parsers::{encode_all, program, spec_program};
use crate::assembler::scanner::{
    chars_of, in_class, lemma_span_end_bounds, scan, span_end, CharClass,
};
use crate::assembler::symbol_table::str_eq;

verus! {

/// What the REPL does after a line.
#[derive(Debug, PartialEq, Eq, Clone, Copy)]
pub enum ReplAction {
    /// `.quit`: say goodbye and stop.
    Quit,
    /// `.history`: show every line typed so far.
    ShowHistory,
    /// The line was not a program.
    ParseFailed,
    /// The line's bytecode was appended to the program.
    Appended,
}

/// Core structure for the REPL for the Assembler.
pub struct REPL {
    command_buffer: Vec<String>,
    /// The bytecode the virtual machine is to run.
    program: Vec<u8>,
}

/// The lines typed so far, and the bytecode gathered.
pub struct ReplView {
    pub commands: Seq<Seq<char>>,
    pub program: Seq<u8>,
}

impl View for REPL {
    type V = ReplView;

    closed spec fn view(&self) -> ReplView {
        ReplView {
            commands: self.command_buffer@.map_values(|c: String| c@),
            program: self.program@,
        }
    }
}

/// The end of `s[a..b]` once trailing Unicode whitespace is dropped, not going
/// below `a`.
pub open spec fn trimmed_end(s: Seq<char>, a: int, b: int) -> int
    decreases b - a,
{
    if a < b && in_class(CharClass::UnicodeSpace, s[b - 1]) {
        trimmed_end(s, a, b - 1)
    } else {
        b
    }
}

/// `s` without leading and trailing Unicode whitespace.
pub open spec fn trimmed(s: Seq<char>) -> Seq<char> {
    let a = span_end(s, 0, CharClass::UnicodeSpace);
    s.subrange(a, trimmed_end(s, a, s.len() as int))
}

proof fn lemma_trimmed_end_bounds(s: Seq<char>, a: int, b: int)
    requires
        0 <= a <= b <= s.len(),
    ensures
        a <= trimmed_end(s, a, b) <= b,
    decreases b - a,
{
    if a < b && in_class(CharClass::UnicodeSpace, s[b - 1]) {
        lemma_trimmed_end_bounds(s, a, b - 1);
    }
}

/// What a line does: the action, and the program after it.
pub open spec fn spec_handle_line(program: Seq<u8>, line: Seq<char>) -> (ReplAction, Seq<u8>) {
    if line == ".quit"@ {
        (ReplAction::Quit, program)
    } else if line == ".history"@ {
        (ReplAction::ShowHistory, program)
    } else {
        match spec_program(line, 0) {
            Some((_, is)) => (ReplAction::Appended, program + encode_all(is, Seq::empty())),
            None => (ReplAction::ParseFailed, program),
        }
    }
}

/// Whatever line is typed, the bytecode gathered before it stays as it was at
/// the front of the program; only a line that parses as a program adds to it.
pub proof fn law_repl_program_only_grows(program: Seq<u8>, line: Seq<char>)
    ensures
        spec_handle_line(program, line).1.len() >= program.len(),
        spec_handle_line(program, line).1.subrange(0, program.len() as int) == program,
        spec_handle_line(program, line).0 != ReplAction::Appended ==> spec_handle_line(
            program,
            line,
        ).1 == program,
{
    assert(spec_handle_line(program, line).1.subrange(0, program.len() as int) =~= program);
}

fn char_is_unicode_space(c: char) -> (r: bool)
    ensures
        r == in_class(CharClass::UnicodeSpace, c),
{
    crate::assembler::scanner::char_in_class(CharClass::UnicodeSpace, c)
}

impl REPL {
    /// Creates and returns a new assembly REPL.
    pub fn new() -> (r: REPL)
        ensures
            r@.commands == Seq::<Seq<char>>::empty(),
            r@.program == Seq::<u8>::empty(),
    {
        let r = REPL { command_buffer: vec![], program: vec![] };
        assert(r@.commands =~= Seq::<Seq<char>>::empty());
        r
    }

    /// Handles one line typed by the user: drops the whitespace around it,
    /// records it, then runs the command it names or appends the bytecode of
    /// the program it holds.
    pub fn handle_line(&mut self, raw: &str) -> (r: ReplAction)
        ensures
            final(self)@.commands == old(self)@.commands.push(trimmed(raw@)),
            (r, final(self)@.program) == spec_handle_line(old(self)@.program, trimmed(raw@)),
    {
        let cs = chars_of(raw);
        let a = scan(&cs, 0, CharClass::UnicodeSpace);
        let mut b = cs.len();
        while a < b && char_is_unicode_space(cs[b - 1])
            invariant
                cs@ == raw@,
                a <= b <= cs@.len(),
                trimmed_end(cs@, a as int, b as int) == trimmed_end(
                    cs@,
                    a as int,
                    cs@.len() as int,
                ),
            decreases b - a,
        {
            b = b - 1;
        }
        let line = raw.substring_char(a, b);
        assert(line@ == trimmed(raw@));
        let ghost cmds = self@.commands;
        self.command_buffer.push(line.to_owned());
        proof {
            assert(self@.commands =~= cmds.push(line@));
        }
        if str_eq(line, ".quit") {
            ReplAction::Quit
        } else if str_eq(line, ".history") {
            ReplAction::ShowHistory
        } else {
            match program(line) {
                Ok((_, prog)) => {
                    let mut bytes = prog.to_bytes();
                    self.program.append(&mut bytes);
                    ReplAction::Appended
                },
                Err(_) => ReplAction::ParseFailed,
            }
        }
    }

    /// The lines typed so far, oldest first.
    pub fn command_buffer(&self) -> (r: &Vec<String>)
        ensures
            r@.map_values(|c: String| c@) == self@.commands,
    {
        &self.command_buffer
    }

    /// The bytecode gathered so far.
    pub fn program(&self) -> (r: &Vec<u8>)
        ensures
            r@ == self@.program,
    {
        &self.program
    }
}

} // verus!
