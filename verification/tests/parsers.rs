use iridium::assembler::directive_parsers::{directive, directive_combined, directive_declaration};
use iridium::assembler::instruction_parsers::{instruction, instruction_one, AssemblerInstruction};
use iridium::instruction::Opcode;
use iridium::assembler::operand_parsers::{integer_operand, irstring};
use iridium::assembler::program_parsers::program;
use iridium::assembler::register_parsers::register;
use iridium::assembler::label_parsers::label_usage;
use iridium::assembler::Token;

#[test]
fn test_parse_integer_operand() {
    // Test a valid integer operand
    let result = integer_operand("#10");
    assert_eq!(result.is_ok(), true);
    let (rest, value) = result.unwrap();
    assert_eq!(rest, "");
    assert_eq!(value, Token::IntegerOperand { value: 10 });

    // Test an invalid one (missing the #)
    let result = integer_operand("10");
    assert_eq!(result.is_ok(), false);
}

#[test]
fn operands_allow_space_after_their_sign() {
    assert_eq!(integer_operand("# 10"), Ok(("", Token::IntegerOperand { value: 10 })));
    assert_eq!(register("$ 3"), Ok(("", Token::Register { reg_num: 3 })));
    assert_eq!(
        label_usage("@ test"),
        Ok(("", Token::LabelUsage { name: "test".to_string() }))
    );
    let (rest, p) = program("load $ 0 # 100\n").unwrap();
    assert_eq!(rest, "");
    assert_eq!(p.to_bytes(), vec![0, 0, 0, 100]);
}

#[test]
fn test_parse_string_operand() {
    let result = irstring("'This is a test'");
    assert_eq!(result.is_ok(), true);
}

#[test]
fn test_string_directive() {
    let result = directive_combined("test: .asciiz 'Hello'");
    assert_eq!(result.is_ok(), true);
    let (_, directive) = result.unwrap();

    let correct_instruction = AssemblerInstruction {
        opcode: None,
        label: Some(Token::LabelDeclaration { name: "test".to_string() }),
        directive: Some(Token::Directive { name: "asciiz".to_string() }),
        operand1: Some(Token::IrString { name: "Hello".to_string() }),
        operand2: None,
        operand3: None,
    };

    assert_eq!(directive, correct_instruction);
}

#[test]
fn test_complete_program() {
    let test_program = ".data\nhello: .asciiz 'Hello everyone!'\n.code\nhlt";
    let result = program(test_program);
    assert_eq!(result.is_ok(), true);
}

#[test]
fn test_parse_program() {
    let result = program("load $0 #100\n");
    assert_eq!(result.is_ok(), true);
    let (leftover, p) = result.unwrap();
    assert_eq!(leftover, "");
    assert_eq!(1, p.instructions.len());
}

#[test]
fn test_program_to_bytes() {
    let result = program("load $0 #100\n");
    assert_eq!(result.is_ok(), true);
    let (_, program) = result.unwrap();
    let bytecode = program.to_bytes();
    assert_eq!(bytecode.len(), 4);
    println!("{:?}", bytecode);
}

#[test]
fn directives_and_lines() {
    assert_eq!(
        directive_declaration(".code\nhlt").unwrap(),
        ("hlt", Token::Directive { name: "code".to_string() })
    );
    assert!(directive_declaration(".").is_err());
    assert!(directive_declaration("code").is_err());

    let (rest, d) = directive(".data").unwrap();
    assert_eq!(rest, "");
    assert_eq!(d.directive, Some(Token::Directive { name: "data".to_string() }));
    assert!(d.opcode.is_none() && d.label.is_none() && d.operand1.is_none());

    let (rest, i) = instruction_one("loop: add $1 $2 $3 hlt").unwrap();
    assert_eq!(rest, "hlt");
    let expected = AssemblerInstruction {
        opcode: Some(Token::Op { code: Opcode::ADD }),
        label: Some(Token::LabelDeclaration { name: "loop".to_string() }),
        directive: None,
        operand1: Some(Token::Register { reg_num: 1 }),
        operand2: Some(Token::Register { reg_num: 2 }),
        operand3: Some(Token::Register { reg_num: 3 }),
    };
    assert_eq!(i, expected);
    assert!(instruction_one(".data").is_err());

    let (_, line) = instruction(".data").unwrap();
    assert!(line.is_directive() && !line.is_opcode() && !line.is_label());
    let (_, line) = instruction("x: .asciiz 'y'").unwrap();
    assert!(line.is_directive() && line.is_label() && line.has_operands());
    assert_eq!(line.get_label_name(), Some("x".to_string()));
    assert_eq!(line.get_directive_name(), Some("asciiz".to_string()));
    assert_eq!(line.get_string_constant(), Some("y".to_string()));
    assert!(instruction("#1").is_err());
}
