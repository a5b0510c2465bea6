# iridium

An assembler for the Iridium virtual machine, written in Verus.

- `src/assembler/`: the assembly language's grammar (one file per rule family:
  registers, labels, opcodes, operands, directives, instructions, programs),
  the symbol table, and the two-pass `Assembler`. `model.rs` states what each
  pass does over the assembler's abstract state; `laws.rs` and `bounds.rs`
  hold the properties proved about it.
- `src/instruction.rs`: the machine's opcodes and their byte codes.
- `src/token.rs`, `src/operator_parsers.rs`, `src/expression_parsers.rs`:
  arithmetic expressions.
- `src/repl/`: what the REPL does with each line typed.
- `app/main.rs`: the terminal REPL around the library.
- `tests/`: tests of the library.

Every parser takes a `&str` and gives back the rest of the input with what it
parsed; its contract says exactly which rest and which value, over the
grammar's specification.
