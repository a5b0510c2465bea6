use iridium::assembler::label_parsers::{label_declaration, label_usage};
use iridium::assembler::opcode_parsers::opcode;
use iridium::assembler::operand_parsers::{integer_operand, irstring, operand};
use iridium::assembler::register_parsers::register;
use iridium::assembler::Token;
use iridium::instruction::Opcode;

#[test]
fn registers_up_to_255() {
    assert_eq!(register("$3").unwrap(), ("", Token::Register { reg_num: 3 }));
    assert_eq!(register("  $255  x").unwrap(), ("x", Token::Register { reg_num: 255 }));
    assert!(register("$256").is_err());
    assert!(register("$").is_err());
    assert!(register("3").is_err());
}

#[test]
fn integer_operands_fit_in_i32() {
    assert_eq!(
        integer_operand("#2147483647").unwrap(),
        ("", Token::IntegerOperand { value: 2147483647 })
    );
    assert!(integer_operand("#2147483648").is_err());
    assert!(integer_operand("#").is_err());
}

#[test]
fn labels() {
    assert_eq!(
        label_declaration("test: inc $0").unwrap(),
        ("inc $0", Token::LabelDeclaration { name: "test".to_string() })
    );
    assert!(label_declaration("test inc").is_err());
    assert_eq!(
        label_usage("@loop1 $1").unwrap(),
        ("$1", Token::LabelUsage { name: "loop1".to_string() })
    );
    assert!(label_usage("@").is_err());
}

#[test]
fn opcodes_by_name() {
    assert_eq!(opcode("load $0").unwrap(), ("$0", Token::Op { code: Opcode::LOAD }));
    assert_eq!(opcode("djmpe").unwrap(), ("", Token::Op { code: Opcode::DJMPE }));
    assert_eq!(opcode("LOAD").unwrap(), ("", Token::Op { code: Opcode::IGL }));
    assert_eq!(opcode("hello").unwrap(), ("", Token::Op { code: Opcode::IGL }));
    assert!(opcode("$1").is_err());
}

#[test]
fn opcode_codes() {
    assert_eq!(Opcode::LOAD.code(), 0);
    assert_eq!(Opcode::ADD.code(), 1);
    assert_eq!(Opcode::HLT.code(), 5);
    assert_eq!(Opcode::JMPE.code(), 15);
    assert_eq!(Opcode::PRTS.code(), 21);
    assert_eq!(Opcode::IGL.code(), 22);
}

#[test]
fn strings_and_operand_choice() {
    assert_eq!(
        irstring("'This is a test' rest").unwrap(),
        ("rest", Token::IrString { name: "This is a test".to_string() })
    );
    assert_eq!(irstring("''").unwrap(), ("", Token::IrString { name: "".to_string() }));
    assert!(irstring("'unterminated").is_err());
    assert_eq!(operand("#5").unwrap().1, Token::IntegerOperand { value: 5 });
    assert_eq!(operand("@x").unwrap().1, Token::LabelUsage { name: "x".to_string() });
    assert_eq!(operand("$7").unwrap().1, Token::Register { reg_num: 7 });
    assert_eq!(operand("'s'").unwrap().1, Token::IrString { name: "s".to_string() });
    assert!(operand("load").is_err());
}
