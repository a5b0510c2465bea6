//! An assembler for the Iridium virtual machine: a grammar for its assembly
//! language, a symbol table, a two-pass assembler and the decisions of its REPL.
pub mod assembler;
pub mod instruction;
pub mod repl;
pub mod token;
pub mod operator_parsers;
pub mod expression_parsers;
