//! The operations of the Iridium virtual machine and their byte codes.
use vstd::prelude::*;

verus! {

/// An operation of the virtual machine. `IGL` stands for any illegal name.
#[derive(Clone, Copy, PartialEq, Eq, Debug)]
pub enum Opcode {
    LOAD,
    ADD,
    SUB,
    MUL,
    DIV,
    HLT,
    JMP,
    JMPF,
    JMPB,
    EQ,
    NEQ,
    GTE,
    LTE,
    LT,
    GT,
    JMPE,
    NOP,
    ALOC,
    INC,
    DEC,
    DJMPE,
    PRTS,
    IGL,
}

/// The opcode an assembly mnemonic names: the lower-case mnemonic, or `IGL`.
pub open spec fn opcode_named(name: Seq<char>) -> Opcode {
    if name == "load"@ {
        Opcode::LOAD
    } else if name == "add"@ {
        Opcode::ADD
    } else if name == "sub"@ {
        Opcode::SUB
    } else if name == "mul"@ {
        Opcode::MUL
    } else if name == "div"@ {
        Opcode::DIV
    } else if name == "hlt"@ {
        Opcode::HLT
    } else if name == "jmp"@ {
        Opcode::JMP
    } else if name == "jmpf"@ {
        Opcode::JMPF
    } else if name == "jmpb"@ {
        Opcode::JMPB
    } else if name == "eq"@ {
        Opcode::EQ
    } else if name == "neq"@ {
        Opcode::NEQ
    } else if name == "gte"@ {
        Opcode::GTE
    } else if name == "lte"@ {
        Opcode::LTE
    } else if name == "lt"@ {
        Opcode::LT
    } else if name == "gt"@ {
        Opcode::GT
    } else if name == "jmpe"@ {
        Opcode::JMPE
    } else if name == "nop"@ {
        Opcode::NOP
    } else if name == "aloc"@ {
        Opcode::ALOC
    } else if name == "inc"@ {
        Opcode::INC
    } else if name == "dec"@ {
        Opcode::DEC
    } else if name == "djmpe"@ {
        Opcode::DJMPE
    } else if name == "prts"@ {
        Opcode::PRTS
    } else {
        Opcode::IGL
    }
}

/// The byte that encodes an opcode: its place in the list of operations.
pub open spec fn opcode_code(op: Opcode) -> u8 {
    match op {
        Opcode::LOAD => 0,
        Opcode::ADD => 1,
        Opcode::SUB => 2,
        Opcode::MUL => 3,
        Opcode::DIV => 4,
        Opcode::HLT => 5,
        Opcode::JMP => 6,
        Opcode::JMPF => 7,
        Opcode::JMPB => 8,
        Opcode::EQ => 9,
        Opcode::NEQ => 10,
        Opcode::GTE => 11,
        Opcode::LTE => 12,
        Opcode::LT => 13,
        Opcode::GT => 14,
        Opcode::JMPE => 15,
        Opcode::NOP => 16,
        Opcode::ALOC => 17,
        Opcode::INC => 18,
        Opcode::DEC => 19,
        Opcode::DJMPE => 20,
        Opcode::PRTS => 21,
        Opcode::IGL => 22,
    }
}

/// The mnemonic an operation is written with in assembly: its name in lower
/// case. `IGL` has none.
pub open spec fn mnemonic(op: Opcode) -> Seq<char> {
    match op {
        Opcode::LOAD => "load"@,
        Opcode::ADD => "add"@,
        Opcode::SUB => "sub"@,
        Opcode::MUL => "mul"@,
        Opcode::DIV => "div"@,
        Opcode::HLT => "hlt"@,
        Opcode::JMP => "jmp"@,
        Opcode::JMPF => "jmpf"@,
        Opcode::JMPB => "jmpb"@,
        Opcode::EQ => "eq"@,
        Opcode::NEQ => "neq"@,
        Opcode::GTE => "gte"@,
        Opcode::LTE => "lte"@,
        Opcode::LT => "lt"@,
        Opcode::GT => "gt"@,
        Opcode::JMPE => "jmpe"@,
        Opcode::NOP => "nop"@,
        Opcode::ALOC => "aloc"@,
        Opcode::INC => "inc"@,
        Opcode::DEC => "dec"@,
        Opcode::DJMPE => "djmpe"@,
        Opcode::PRTS => "prts"@,
        Opcode::IGL => Seq::empty(),
    }
}

/// Every operation's mnemonic names that operation, never `IGL`, and its byte
/// code is the operation's own.
pub proof fn law_mnemonic_names_its_opcode(op: Opcode)
    requires
        op != Opcode::IGL,
    ensures
        opcode_named(mnemonic(op)) == op,
        opcode_code(opcode_named(mnemonic(op))) == opcode_code(op),
        opcode_code(opcode_named(mnemonic(op))) != opcode_code(Opcode::IGL),
{
    reveal_strlit("load");
    reveal_strlit("add");
    reveal_strlit("sub");
    reveal_strlit("mul");
    reveal_strlit("div");
    reveal_strlit("hlt");
    reveal_strlit("jmp");
    reveal_strlit("jmpf");
    reveal_strlit("jmpb");
    reveal_strlit("eq");
    reveal_strlit("neq");
    reveal_strlit("gte");
    reveal_strlit("lte");
    reveal_strlit("lt");
    reveal_strlit("gt");
    reveal_strlit("jmpe");
    reveal_strlit("nop");
    reveal_strlit("aloc");
    reveal_strlit("inc");
    reveal_strlit("dec");
    reveal_strlit("djmpe");
    reveal_strlit("prts");
    let m = mnemonic(op);
    match op {
        Opcode::LOAD => {
            assert(m.len() == 4 && m[0] == 'l' && m[1] == 'o' && m[2] == 'a' && m[3] == 'd');
            assert(opcode_named(m) == Opcode::LOAD);
        },
        Opcode::ADD => {
            assert(m.len() == 3 && m[0] == 'a' && m[1] == 'd' && m[2] == 'd');
            assert(opcode_named(m) == Opcode::ADD);
        },
        Opcode::SUB => {
            assert(m.len() == 3 && m[0] == 's' && m[1] == 'u' && m[2] == 'b');
            assert(opcode_named(m) == Opcode::SUB);
        },
        Opcode::MUL => {
            assert(m.len() == 3 && m[0] == 'm' && m[1] == 'u' && m[2] == 'l');
            assert(opcode_named(m) == Opcode::MUL);
        },
        Opcode::DIV => {
            assert(m.len() == 3 && m[0] == 'd' && m[1] == 'i' && m[2] == 'v');
            assert(opcode_named(m) == Opcode::DIV);
        },
        Opcode::HLT => {
            assert(m.len() == 3 && m[0] == 'h' && m[1] == 'l' && m[2] == 't');
            assert(opcode_named(m) == Opcode::HLT);
        },
        Opcode::JMP => {
            assert(m.len() == 3 && m[0] == 'j' && m[1] == 'm' && m[2] == 'p');
            assert(opcode_named(m) == Opcode::JMP);
        },
        Opcode::JMPF => {
            assert(m.len() == 4 && m[0] == 'j' && m[1] == 'm' && m[2] == 'p' && m[3] == 'f');
            assert(opcode_named(m) == Opcode::JMPF);
        },
        Opcode::JMPB => {
            assert(m.len() == 4 && m[0] == 'j' && m[1] == 'm' && m[2] == 'p' && m[3] == 'b');
            assert(opcode_named(m) == Opcode::JMPB);
        },
        Opcode::EQ => {
            assert(m.len() == 2 && m[0] == 'e' && m[1] == 'q');
            assert(opcode_named(m) == Opcode::EQ);
        },
        Opcode::NEQ => {
            assert(m.len() == 3 && m[0] == 'n' && m[1] == 'e' && m[2] == 'q');
            assert(opcode_named(m) == Opcode::NEQ);
        },
        Opcode::GTE => {
            assert(m.len() == 3 && m[0] == 'g' && m[1] == 't' && m[2] == 'e');
            assert(opcode_named(m) == Opcode::GTE);
        },
        Opcode::LTE => {
            assert(m.len() == 3 && m[0] == 'l' && m[1] == 't' && m[2] == 'e');
            assert(opcode_named(m) == Opcode::LTE);
        },
        Opcode::LT => {
            assert(m.len() == 2 && m[0] == 'l' && m[1] == 't');
            assert(opcode_named(m) == Opcode::LT);
        },
        Opcode::GT => {
            assert(m.len() == 2 && m[0] == 'g' && m[1] == 't');
            assert(opcode_named(m) == Opcode::GT);
        },
        Opcode::JMPE => {
            assert(m.len() == 4 && m[0] == 'j' && m[1] == 'm' && m[2] == 'p' && m[3] == 'e');
            assert(opcode_named(m) == Opcode::JMPE);
        },
        Opcode::NOP => {
            assert(m.len() == 3 && m[0] == 'n' && m[1] == 'o' && m[2] == 'p');
            assert(opcode_named(m) == Opcode::NOP);
        },
        Opcode::ALOC => {
            assert(m.len() == 4 && m[0] == 'a' && m[1] == 'l' && m[2] == 'o' && m[3] == 'c');
            assert(opcode_named(m) == Opcode::ALOC);
        },
        Opcode::INC => {
            assert(m.len() == 3 && m[0] == 'i' && m[1] == 'n' && m[2] == 'c');
            assert(opcode_named(m) == Opcode::INC);
        },
        Opcode::DEC => {
            assert(m.len() == 3 && m[0] == 'd' && m[1] == 'e' && m[2] == 'c');
            assert(opcode_named(m) == Opcode::DEC);
        },
        Opcode::DJMPE => {
            assert(m.len() == 5 && m[0] == 'd' && m[1] == 'j' && m[2] == 'm' && m[3] == 'p' && m[4] == 'e');
            assert(opcode_named(m) == Opcode::DJMPE);
        },
        Opcode::PRTS => {
            assert(m.len() == 4 && m[0] == 'p' && m[1] == 'r' && m[2] == 't' && m[3] == 's');
            assert(opcode_named(m) == Opcode::PRTS);
        },
        Opcode::IGL => {},
    }
}

/// A word names `IGL` exactly when it is the mnemonic of no operation.
pub proof fn law_illegal_exactly_when_unnamed(w: Seq<char>)
    ensures
        opcode_named(w) == Opcode::IGL <==> (forall|op: Opcode|
            op != Opcode::IGL ==> w != #[trigger] mnemonic(op)),
{
    if opcode_named(w) != Opcode::IGL {
        law_mnemonic_names_its_opcode(opcode_named(w));
        assert(w == mnemonic(opcode_named(w)));
    } else {
        assert forall|op: Opcode| op != Opcode::IGL implies w != #[trigger] mnemonic(op) by {
            if w == mnemonic(op) {
                law_mnemonic_names_its_opcode(op);
            }
        }
    }
}

/// An operation's mnemonic is a non-empty word of lower-case letters.
pub proof fn lemma_mnemonic_is_lower_word(op: Opcode)
    requires
        op != Opcode::IGL,
    ensures
        mnemonic(op).len() > 0,
        forall|i: int| 0 <= i < mnemonic(op).len() ==> 'a' <= #[trigger] mnemonic(op)[i] <= 'z',
{
    let m = mnemonic(op);
    match op {
        Opcode::LOAD => {
            reveal_strlit("load");
            assert(m.len() == 4 && m[0] == 'l' && m[1] == 'o' && m[2] == 'a' && m[3] == 'd');
            assert forall|i: int| 0 <= i < m.len() implies 'a' <= #[trigger] m[i] <= 'z' by {
                assert(i == 0 || i == 1 || i == 2 || i == 3);
            }
        },
        Opcode::ADD => {
            reveal_strlit("add");
            assert(m.len() == 3 && m[0] == 'a' && m[1] == 'd' && m[2] == 'd');
            assert forall|i: int| 0 <= i < m.len() implies 'a' <= #[trigger] m[i] <= 'z' by {
                assert(i == 0 || i == 1 || i == 2);
            }
        },
        Opcode::SUB => {
            reveal_strlit("sub");
            assert(m.len() == 3 && m[0] == 's' && m[1] == 'u' && m[2] == 'b');
            assert forall|i: int| 0 <= i < m.len() implies 'a' <= #[trigger] m[i] <= 'z' by {
                assert(i == 0 || i == 1 || i == 2);
            }
        },
        Opcode::MUL => {
            reveal_strlit("mul");
            assert(m.len() == 3 && m[0] == 'm' && m[1] == 'u' && m[2] == 'l');
            assert forall|i: int| 0 <= i < m.len() implies 'a' <= #[trigger] m[i] <= 'z' by {
                assert(i == 0 || i == 1 || i == 2);
            }
        },
        Opcode::DIV => {
            reveal_strlit("div");
            assert(m.len() == 3 && m[0] == 'd' && m[1] == 'i' && m[2] == 'v');
            assert forall|i: int| 0 <= i < m.len() implies 'a' <= #[trigger] m[i] <= 'z' by {
                assert(i == 0 || i == 1 || i == 2);
            }
        },
        Opcode::HLT => {
            reveal_strlit("hlt");
            assert(m.len() == 3 && m[0] == 'h' && m[1] == 'l' && m[2] == 't');
            assert forall|i: int| 0 <= i < m.len() implies 'a' <= #[trigger] m[i] <= 'z' by {
                assert(i == 0 || i == 1 || i == 2);
            }
        },
        Opcode::JMP => {
            reveal_strlit("jmp");
            assert(m.len() == 3 && m[0] == 'j' && m[1] == 'm' && m[2] == 'p');
            assert forall|i: int| 0 <= i < m.len() implies 'a' <= #[trigger] m[i] <= 'z' by {
                assert(i == 0 || i == 1 || i == 2);
            }
        },
        Opcode::JMPF => {
            reveal_strlit("jmpf");
            assert(m.len() == 4 && m[0] == 'j' && m[1] == 'm' && m[2] == 'p' && m[3] == 'f');
            assert forall|i: int| 0 <= i < m.len() implies 'a' <= #[trigger] m[i] <= 'z' by {
                assert(i == 0 || i == 1 || i == 2 || i == 3);
            }
        },
        Opcode::JMPB => {
            reveal_strlit("jmpb");
            assert(m.len() == 4 && m[0] == 'j' && m[1] == 'm' && m[2] == 'p' && m[3] == 'b');
            assert forall|i: int| 0 <= i < m.len() implies 'a' <= #[trigger] m[i] <= 'z' by {
                assert(i == 0 || i == 1 || i == 2 || i == 3);
            }
        },
        Opcode::EQ => {
            reveal_strlit("eq");
            assert(m.len() == 2 && m[0] == 'e' && m[1] == 'q');
            assert forall|i: int| 0 <= i < m.len() implies 'a' <= #[trigger] m[i] <= 'z' by {
                assert(i == 0 || i == 1);
            }
        },
        Opcode::NEQ => {
            reveal_strlit("neq");
            assert(m.len() == 3 && m[0] == 'n' && m[1] == 'e' && m[2] == 'q');
            assert forall|i: int| 0 <= i < m.len() implies 'a' <= #[trigger] m[i] <= 'z' by {
                assert(i == 0 || i == 1 || i == 2);
            }
        },
        Opcode::GTE => {
            reveal_strlit("gte");
            assert(m.len() == 3 && m[0] == 'g' && m[1] == 't' && m[2] == 'e');
            assert forall|i: int| 0 <= i < m.len() implies 'a' <= #[trigger] m[i] <= 'z' by {
                assert(i == 0 || i == 1 || i == 2);
            }
        },
        Opcode::LTE => {
            reveal_strlit("lte");
            assert(m.len() == 3 && m[0] == 'l' && m[1] == 't' && m[2] == 'e');
            assert forall|i: int| 0 <= i < m.len() implies 'a' <= #[trigger] m[i] <= 'z' by {
                assert(i == 0 || i == 1 || i == 2);
            }
        },
        Opcode::LT => {
            reveal_strlit("lt");
            assert(m.len() == 2 && m[0] == 'l' && m[1] == 't');
            assert forall|i: int| 0 <= i < m.len() implies 'a' <= #[trigger] m[i] <= 'z' by {
                assert(i == 0 || i == 1);
            }
        },
        Opcode::GT => {
            reveal_strlit("gt");
            assert(m.len() == 2 && m[0] == 'g' && m[1] == 't');
            assert forall|i: int| 0 <= i < m.len() implies 'a' <= #[trigger] m[i] <= 'z' by {
                assert(i == 0 || i == 1);
            }
        },
        Opcode::JMPE => {
            reveal_strlit("jmpe");
            assert(m.len() == 4 && m[0] == 'j' && m[1] == 'm' && m[2] == 'p' && m[3] == 'e');
            assert forall|i: int| 0 <= i < m.len() implies 'a' <= #[trigger] m[i] <= 'z' by {
                assert(i == 0 || i == 1 || i == 2 || i == 3);
            }
        },
        Opcode::NOP => {
            reveal_strlit("nop");
            assert(m.len() == 3 && m[0] == 'n' && m[1] == 'o' && m[2] == 'p');
            assert forall|i: int| 0 <= i < m.len() implies 'a' <= #[trigger] m[i] <= 'z' by {
                assert(i == 0 || i == 1 || i == 2);
            }
        },
        Opcode::ALOC => {
            reveal_strlit("aloc");
            assert(m.len() == 4 && m[0] == 'a' && m[1] == 'l' && m[2] == 'o' && m[3] == 'c');
            assert forall|i: int| 0 <= i < m.len() implies 'a' <= #[trigger] m[i] <= 'z' by {
                assert(i == 0 || i == 1 || i == 2 || i == 3);
            }
        },
        Opcode::INC => {
            reveal_strlit("inc");
            assert(m.len() == 3 && m[0] == 'i' && m[1] == 'n' && m[2] == 'c');
            assert forall|i: int| 0 <= i < m.len() implies 'a' <= #[trigger] m[i] <= 'z' by {
                assert(i == 0 || i == 1 || i == 2);
            }
        },
        Opcode::DEC => {
            reveal_strlit("dec");
            assert(m.len() == 3 && m[0] == 'd' && m[1] == 'e' && m[2] == 'c');
            assert forall|i: int| 0 <= i < m.len() implies 'a' <= #[trigger] m[i] <= 'z' by {
                assert(i == 0 || i == 1 || i == 2);
            }
        },
        Opcode::DJMPE => {
            reveal_strlit("djmpe");
            assert(m.len() == 5 && m[0] == 'd' && m[1] == 'j' && m[2] == 'm' && m[3] == 'p' && m[4] == 'e');
            assert forall|i: int| 0 <= i < m.len() implies 'a' <= #[trigger] m[i] <= 'z' by {
                assert(i == 0 || i == 1 || i == 2 || i == 3 || i == 4);
            }
        },
        Opcode::PRTS => {
            reveal_strlit("prts");
            assert(m.len() == 4 && m[0] == 'p' && m[1] == 'r' && m[2] == 't' && m[3] == 's');
            assert forall|i: int| 0 <= i < m.len() implies 'a' <= #[trigger] m[i] <= 'z' by {
                assert(i == 0 || i == 1 || i == 2 || i == 3);
            }
        },
        Opcode::IGL => {},
    }
}

/// Whether the characters `cs[a..b]` spell `w`.
pub fn word_is(cs: &Vec<char>, a: usize, b: usize, w: &str) -> (r: bool)
    requires
        a <= b <= cs@.len(),
    ensures
        r == (cs@.subrange(a as int, b as int) == w@),
{
    let n = w.unicode_len();
    if b - a != n {
        assert(cs@.subrange(a as int, b as int).len() != w@.len());
        return false;
    }
    let mut i: usize = 0;
    while i < n
        invariant
            n == w@.len(),
            b - a == n,
            a <= b <= cs@.len(),
            i <= n,
            forall|j: int| 0 <= j < i ==> cs@[a + j] == w@[j],
        decreases n - i,
    {
        if cs[a + i] != w.get_char(i) {
            assert(cs@.subrange(a as int, b as int)[i as int] != w@[i as int]);
            return false;
        }
        i = i + 1;
    }
    assert(cs@.subrange(a as int, b as int) =~= w@);
    true
}

impl Opcode {
    /// The opcode that the mnemonic `cs[a..b]` names.
    pub fn from_word(cs: &Vec<char>, a: usize, b: usize) -> (op: Opcode)
        requires
            a <= b <= cs@.len(),
        ensures
            op == opcode_named(cs@.subrange(a as int, b as int)),
    {
        if word_is(cs, a, b, "load") {
            Opcode::LOAD
        } else if word_is(cs, a, b, "add") {
            Opcode::ADD
        } else if word_is(cs, a, b, "sub") {
            Opcode::SUB
        } else if word_is(cs, a, b, "mul") {
            Opcode::MUL
        } else if word_is(cs, a, b, "div") {
            Opcode::DIV
        } else if word_is(cs, a, b, "hlt") {
            Opcode::HLT
        } else if word_is(cs, a, b, "jmp") {
            Opcode::JMP
        } else if word_is(cs, a, b, "jmpf") {
            Opcode::JMPF
        } else if word_is(cs, a, b, "jmpb") {
            Opcode::JMPB
        } else if word_is(cs, a, b, "eq") {
            Opcode::EQ
        } else if word_is(cs, a, b, "neq") {
            Opcode::NEQ
        } else if word_is(cs, a, b, "gte") {
            Opcode::GTE
        } else if word_is(cs, a, b, "lte") {
            Opcode::LTE
        } else if word_is(cs, a, b, "lt") {
            Opcode::LT
        } else if word_is(cs, a, b, "gt") {
            Opcode::GT
        } else if word_is(cs, a, b, "jmpe") {
            Opcode::JMPE
        } else if word_is(cs, a, b, "nop") {
            Opcode::NOP
        } else if word_is(cs, a, b, "aloc") {
            Opcode::ALOC
        } else if word_is(cs, a, b, "inc") {
            Opcode::INC
        } else if word_is(cs, a, b, "dec") {
            Opcode::DEC
        } else if word_is(cs, a, b, "djmpe") {
            Opcode::DJMPE
        } else if word_is(cs, a, b, "prts") {
            Opcode::PRTS
        } else {
            Opcode::IGL
        }
    }

    /// The byte that encodes this opcode.
    pub fn code(self) -> (b: u8)
        ensures
            b == opcode_code(self),
    {
        match self {
            Opcode::LOAD => 0,
            Opcode::ADD => 1,
            Opcode::SUB => 2,
            Opcode::MUL => 3,
            Opcode::DIV => 4,
            Opcode::HLT => 5,
            Opcode::JMP => 6,
            Opcode::JMPF => 7,
            Opcode::JMPB => 8,
            Opcode::EQ => 9,
            Opcode::NEQ => 10,
            Opcode::GTE => 11,
            Opcode::LTE => 12,
            Opcode::LT => 13,
            Opcode::GT => 14,
            Opcode::JMPE => 15,
            Opcode::NOP => 16,
            Opcode::ALOC => 17,
            Opcode::INC => 18,
            Opcode::DEC => 19,
            Opcode::DJMPE => 20,
            Opcode::PRTS => 21,
            Opcode::IGL => 22,
        }
    }
}

} // verus!
