use iridium::assembler::instruction_parsers::instruction_one;
use iridium::assembler::program_parsers::program;
use iridium::assembler::{
    Assembler, AssemblerError, AssemblerPhase, AssemblerSection, Symbol, SymbolTable, SymbolType,
    PIE_HEADER_LENGTH, PIE_HEADER_PREFIX,
};

fn header() -> Vec<u8> {
    let mut h = vec![45, 50, 49, 45];
    h.resize(65, 0);
    h
}

#[test]
fn pie_header_is_prefix_and_zeros() {
    let assembler = Assembler::new();
    let h = assembler.write_pie_header();
    assert_eq!(h.len(), PIE_HEADER_LENGTH + 1);
    assert_eq!(&h[0..4], &PIE_HEADER_PREFIX[..]);
    assert_eq!(h, header());
}

#[test]
fn instruction_bytes() {
    let (_, p) = program("load $0 #300\nadd $0 $1 $2\nhlt\njmp @nowhere").unwrap();
    assert_eq!(p.to_bytes(), vec![0, 0, 1, 44, 1, 0, 1, 2, 5, 6]);
    let (_, i) = instruction_one("load #1 #2 #3").unwrap();
    assert_eq!(i.to_bytes(&SymbolTable::new()), vec![0, 0, 1, 0, 2, 0, 3]);
    let mut table = SymbolTable::new();
    table.add_symbol(Symbol::new("start".to_string(), SymbolType::Label, 0x0102));
    let (_, j) = instruction_one("jmpe @start").unwrap();
    assert_eq!(j.to_bytes(&table), vec![15, 1, 2]);
}

#[test]
fn program_keeps_what_it_cannot_parse() {
    let (rest, p) = program("hlt\n123").unwrap();
    assert_eq!(rest, "123");
    assert_eq!(p.instructions.len(), 1);
    assert!(program("").is_err());
    assert!(program("  $1").is_err());
}

#[test]
fn assembles_a_program_with_a_string_constant() {
    let mut assembler = Assembler::new();
    let src = ".data\nhello: .asciiz 'Hello'\n.code\nload $0 #100\nhlt";
    let bytes = assembler.assemble(src).unwrap();
    let mut expected = header();
    expected.extend_from_slice(&[0, 0, 0, 100, 5]);
    assert_eq!(bytes, expected);
    assert_eq!(assembler.ro, b"Hello\0".to_vec());
    assert_eq!(assembler.symbols.symbol_value("hello"), Some(0));
}

#[test]
fn labels_resolve_to_four_bytes_per_line() {
    let mut assembler = Assembler::new();
    let src = ".data\n.code\nstart: inc $0\njmp @start";
    let bytes = assembler.assemble(src).unwrap();
    assert_eq!(bytes.len(), 65 + 5);
    assert_eq!(&bytes[65..], &[18, 0, 6, 0, 8]);
    assert_eq!(assembler.symbols.symbol_value("start"), Some(8));
}

#[test]
fn two_strings_follow_each_other_in_read_only_memory() {
    let mut assembler = Assembler::new();
    let src = ".data\na: .asciiz 'hi'\nb: .asciiz 'yo'\n.code\nhlt";
    assembler.assemble(src).unwrap();
    assert_eq!(assembler.ro, b"hi\0yo\0".to_vec());
    assert_eq!(assembler.symbols.symbol_value("a"), Some(0));
    assert_eq!(assembler.symbols.symbol_value("b"), Some(3));
}

#[test]
fn assembly_errors() {
    let mut assembler = Assembler::new();
    assert_eq!(assembler.assemble(".data\nhlt"), Err(vec![AssemblerError::InsufficientSections]));

    let mut assembler = Assembler::new();
    assert_eq!(
        assembler.assemble("test: hlt\n.data\n.code"),
        Err(vec![AssemblerError::NoSegmentDeclarationFound { instruction: 0 }])
    );

    let mut assembler = Assembler::new();
    assert_eq!(
        assembler.assemble(".data\nx: hlt\nx: hlt\n.code"),
        Err(vec![AssemblerError::SymbolAlreadyDeclared])
    );

    let mut assembler = Assembler::new();
    assert_eq!(
        assembler.assemble(".data\n.word #3\n.code"),
        Err(vec![AssemblerError::UnknownDirectiveFound { directive: "word".to_string() }])
    );

    let mut assembler = Assembler::new();
    match assembler.assemble("   ") {
        Err(errors) => {
            assert_eq!(errors.len(), 1);
            assert!(matches!(errors[0], AssemblerError::ParseError { .. }));
        }
        Ok(_) => panic!("an empty source does not assemble"),
    }
}

#[test]
fn unknown_sections_are_ignored() {
    let mut assembler = Assembler::new();
    assert_eq!(
        assembler.assemble(".text\n.data\nhlt"),
        Err(vec![AssemblerError::InsufficientSections])
    );
}

#[test]
fn sections_phases_and_defaults() {
    let data = AssemblerSection::Data { starting_instruction: None };
    let code = AssemblerSection::Code { starting_instruction: None };
    assert_eq!(AssemblerSection::from("data"), data);
    assert_eq!(AssemblerSection::from("code"), code);
    assert_eq!(AssemblerSection::from("text"), AssemblerSection::Unknown);
    assert_eq!(AssemblerSection::default(), AssemblerSection::Unknown);
    assert_eq!(AssemblerPhase::default(), AssemblerPhase::First);
}

#[test]
fn extract_labels_counts_four_bytes_per_line() {
    let (_, p) = program("load $0 #1\nback: inc $0\nend: hlt").unwrap();
    let mut assembler = Assembler::new();
    assembler.extract_labels(&p);
    assert_eq!(assembler.symbols.symbol_value("back"), Some(4));
    assert_eq!(assembler.symbols.symbol_value("end"), Some(8));
    assert_eq!(assembler.symbols.symbols.len(), 2);
}

#[test]
fn symbol_table_keeps_the_first_of_two_names() {
    let mut sym = SymbolTable::new();
    sym.add_symbol(Symbol::new("a".to_string(), SymbolType::Label, 1));
    sym.add_symbol(Symbol::new("a".to_string(), SymbolType::Label, 2));
    assert_eq!(sym.symbol_value("a"), Some(1));
    assert!(sym.has_symbol("a"));
    assert!(!sym.has_symbol("b"));
    assert!(sym.set_symbol_offset("a", 7));
    assert_eq!(sym.symbol_value("a"), Some(7));
    assert!(!sym.set_symbol_offset("b", 7));
    assert_eq!(sym.symbol_value("b"), None);
}

#[test]
fn a_second_assembly_writes_no_string_constants() {
    let mut assembler = Assembler::new();
    let src = ".data\nhello: .asciiz 'Hi'\n.code\nhlt";
    assert!(assembler.assemble(src).is_ok());
    assert_eq!(assembler.ro, b"Hi\0".to_vec());
    // The first pass ended in the second phase, and the sections seen so far
    // are still counted.
    // are still counted, so a data and a code section have been seen.
    let mut expected = header();
    expected.push(5);
    assert_eq!(assembler.assemble(".code\nhlt"), Ok(expected));
    assert_eq!(assembler.ro, b"Hi\0".to_vec());
}

#[test]
fn sections_must_include_data_and_code() {
    let mut assembler = Assembler::new();
    assert_eq!(
        assembler.assemble(".code\n.code"),
        Err(vec![AssemblerError::InsufficientSections])
    );

    let mut assembler = Assembler::new();
    assert_eq!(
        assembler.assemble(".data\n.data\nhlt"),
        Err(vec![AssemblerError::InsufficientSections])
    );

    let mut expected = header();
    expected.push(5);
    let mut assembler = Assembler::new();
    assert_eq!(assembler.assemble(".data\n.code\n.data\nhlt"), Ok(expected.clone()));
    // Both passes read the section headers, so each is recorded twice.
    assert_eq!(assembler.sections.len(), 6);

    let mut assembler = Assembler::new();
    assert_eq!(assembler.assemble(".code\n.data\nhlt"), Ok(expected));
}

#[test]
fn test_assemble_program() {
    let mut assembler = Assembler::new();
    let test_string =
        "load $0 #100\nload $1 #1\nload $2 #0\ntest: inc $0\nneq $0 $2\njmpe @test\nhlt";
    let program = assembler.assemble(test_string).unwrap();
    assert_eq!(program.len(), 21);
}

#[test]
fn a_source_of_instructions_alone_has_no_header() {
    let mut assembler = Assembler::new();
    let test_string =
        "load $0 #100\nload $1 #1\nload $2 #0\ntest: inc $0\nneq $0 $2\njmpe @test\nhlt";
    let program = assembler.assemble(test_string).unwrap();
    assert_eq!(
        program,
        vec![0, 0, 0, 100, 0, 1, 0, 1, 0, 2, 0, 0, 18, 0, 10, 0, 2, 15, 0, 12, 5]
    );
    assert_eq!(assembler.symbols.symbol_value("test"), Some(12));
    assert_eq!(assembler.phase, AssemblerPhase::Second);
}
