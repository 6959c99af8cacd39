use iridium::assembler::{Assembler, AssemblerError, AssemblerPhase, AssemblerSection};
use iridium::instruction::Opcode;
use iridium::parser::{parse_instruction, parse_operand, parse_program};
use iridium::symbols::{Symbol, SymbolTable, SymbolType};
use iridium::token::{AssemblerInstruction, Token};
use iridium::vm::VM;

fn chars(s: &str) -> Vec<char> {
    s.chars().collect()
}

const HEADER_PREFIX: [u8; 4] = [45, 50, 49, 45];

#[test]
fn test_string_directive() {
    let text = chars("test: .asciiz 'Hello'");
    let result = parse_instruction(&text, 0);
    assert_eq!(result.is_some(), true);
    let (directive, _) = result.unwrap();
    let correct_instruction = AssemblerInstruction {
        opcode: None,
        label: Some(Token::LabelDeclaration { name: String::from("test") }),
        directive: Some(Token::Directive { name: String::from("asciiz") }),
        operand1: Some(Token::IrString { name: String::from("Hello") }),
        operand2: None,
        operand3: None,
    };
    assert_eq!(directive, correct_instruction);
}

#[test]
fn test_parse_instruction_form_one() {
    let text = chars("load $0 #100\n");
    let result = parse_instruction(&text, 0);
    assert_eq!(result.is_some(), true);
    let (assembler_instruction, rest) = result.unwrap();
    assert_eq!(rest, text.len());
    assert_eq!(
        assembler_instruction,
        AssemblerInstruction {
            opcode: Some(Token::Op { code: Opcode::LOAD }),
            label: None,
            directive: None,
            operand1: Some(Token::Register { reg_num: 0 }),
            operand2: Some(Token::IntegerOperand { value: 100 }),
            operand3: None,
        },
    );
}

#[test]
fn test_parse_instruction_form_two() {
    let text = chars("hlt");
    let result = parse_instruction(&text, 0);
    assert_eq!(result.is_some(), true);
    let (assembler_instruction, rest) = result.unwrap();
    assert_eq!(rest, text.len());
    assert_eq!(
        assembler_instruction,
        AssemblerInstruction {
            opcode: Some(Token::Op { code: Opcode::HLT }),
            label: None,
            directive: None,
            operand1: None,
            operand2: None,
            operand3: None,
        }
    );
}

#[test]
fn test_parse_instruction_form_three() {
    let text = chars("add $0 $1 $2\n");
    let result = parse_instruction(&text, 0);
    assert_eq!(result.is_some(), true);
    let (assembler_instruction, rest) = result.unwrap();
    assert_eq!(rest, text.len());
    assert_eq!(
        assembler_instruction,
        AssemblerInstruction {
            opcode: Some(Token::Op { code: Opcode::ADD }),
            label: None,
            directive: None,
            operand1: Some(Token::Register { reg_num: 0 }),
            operand2: Some(Token::Register { reg_num: 1 }),
            operand3: Some(Token::Register { reg_num: 2 }),
        }
    )
}

#[test]
fn test_parse_integer_operand() {
    let text = chars("#10");
    let result = parse_operand(&text, 0);
    assert_eq!(result.is_some(), true);
    let (value, rest) = result.unwrap();
    assert_eq!(rest, text.len());
    assert_eq!(value, Token::IntegerOperand { value: 10 });
    let result = parse_operand(&chars("10"), 0);
    assert_eq!(result.is_some(), false);
}

#[test]
fn test_parse_string_operand() {
    let result = parse_operand(&chars("'This is a test'"), 0);
    assert_eq!(result.is_some(), true);
}

#[test]
fn test_parse_register() {
    let result = parse_operand(&chars("$0"), 0);
    assert_eq!(result.is_some(), true);
    let result = parse_operand(&chars("0"), 0);
    assert_eq!(result.is_some(), false);
    let result = parse_operand(&chars("$a"), 0);
    assert_eq!(result.is_some(), false);
}

#[test]
fn test_assemble_program() {
    let mut assembler = Assembler::new();
    let test_string =
        ".data\n.code\nload $0 #100\nload $1 #1\nload $2 #0\ntest: inc $0\nneq $0 $2\njmpe @test\nhlt";
    let program = assembler.assemble(test_string).unwrap();
    let mut vm = VM::new();
    assert_eq!(program.len(), 92);
    vm.add_bytes(program);
    assert_eq!(vm.program.len(), 92);
}

#[test]
fn mod_test_symbol_table() {
    let mut sym = SymbolTable::new();
    let new_symbol = Symbol::new_with_offset(String::from("test"), SymbolType::Label, 12);
    sym.add_symbol(new_symbol);
    assert_eq!(sym.symbols.len(), 1);
    let v = sym.symbol_value("test");
    assert_eq!(true, v.is_some());
    let v = v.unwrap();
    assert_eq!(v, 12);
    let v = sym.symbol_value("does_not_exist");
    assert_eq!(v.is_some(), false);
}

#[test]
fn symbols_test_symbol_table() {
    let mut sym = SymbolTable::new();
    let new_symbol = Symbol::new_with_offset("test".to_string(), SymbolType::Label, 12);
    sym.add_symbol(new_symbol);
    assert_eq!(sym.symbols.len(), 1);
    let v = sym.symbol_value("test");
    assert_eq!(v.is_some(), true);
    let v = v.unwrap();
    assert_eq!(v, 12);
    let v = sym.symbol_value("does_not_exist");
    assert_eq!(v.is_some(), false);
}

#[test]
fn test_ro_data() {
    let mut assembler = Assembler::new();
    let test_string = ".data\ntest: .asciiz 'This is a test'\n.code\n";
    let program = assembler.assemble(test_string);
    assert_eq!(program.is_ok(), true);
}

#[test]
fn test_bad_ro_data() {
    let mut assembler = Assembler::new();
    let test_string = ".code\ntest: .asciiz 'This is a test'\n.wrong\n";
    let program = assembler.assemble(test_string);
    assert_eq!(program.is_ok(), false);
}

#[test]
fn test_first_phase_no_segment() {
    let mut assembler = Assembler::new();
    let test_string = "hello: .asciiz 'Fail'";
    let result = parse_program(&chars(test_string));
    assert_eq!(result.is_some(), true);
    let p = result.unwrap();
    assembler.process_first_phase(&p);
    assert_eq!(assembler.errors.len(), 1);
}

#[test]
fn test_first_phase_inside_segment() {
    let mut assembler = Assembler::new();
    let test_string = ".data\ntest: .asciiz 'Hello'";
    let result = parse_program(&chars(test_string));
    assert_eq!(result.is_some(), true);
    let p = result.unwrap();
    assembler.process_first_phase(&p);
    assert_eq!(assembler.errors.len(), 0);
}

#[test]
fn load_immediate_is_big_endian() {
    let mut assembler = Assembler::new();
    let bytes = assembler.assemble(".data\n.code\nload $0 #500").unwrap();
    assert_eq!(bytes.len(), 68);
    assert_eq!(&bytes[64..], &[1, 0, 1, 244]);
    let (row, _) = parse_instruction(&chars("load $0 #500"), 0).unwrap();
    assert_eq!(row.to_bytes(&SymbolTable::new()), vec![1, 0, 1, 244]);
}

#[test]
fn label_before_section_is_rejected() {
    let mut assembler = Assembler::new();
    let errors = assembler.assemble("hello: .asciiz 'Fail'").unwrap_err();
    assert_eq!(errors, vec![AssemblerError::NoSegmentDeclarationFound { instruction: 0 }]);
}

#[test]
fn assembled_output_starts_with_header() {
    let mut assembler = Assembler::new();
    let bytes = assembler.assemble(".code\nhlt\n.data").unwrap();
    assert_eq!(&bytes[0..4], &HEADER_PREFIX);
    assert!(bytes[4..64].iter().all(|b| *b == 0));
    assert_eq!(bytes.len(), 68);
    let bytes = assembler.assemble(".data\n.code").unwrap();
    assert_eq!(bytes.len(), 64);
    assert_eq!(&bytes[0..4], &HEADER_PREFIX);
}

#[test]
fn loop_program_assembles_and_halts() {
    let mut assembler = Assembler::new();
    let text =
        ".data\n.code\nload $0 #100\nload $1 #1\nload $2 #0\ntest: inc $0\nneq $0 $2\njmpe @test\nhlt";
    let program = assembler.assemble(text).unwrap();
    assert_eq!(program.len(), 92);
    assert_eq!(&program[64..68], &[1, 0, 0, 100]);
    assert_eq!(&program[84..88], &[21, 12, 0, 0]);
    assert_eq!(&program[88..92], &[0, 0, 0, 0]);
    assert_eq!(assembler.symbols.symbol_value("test"), Some(12));
    assert_eq!(assembler.bytecode, program);
    assert_eq!(assembler.current_instruction, 9);
    let mut vm = VM::new();
    vm.add_bytes(program);
    vm.run();
    // Execution starts at byte 65, the register byte of the first LOAD, which
    // decodes as HLT.
    assert_eq!(vm.pc, 66);
}

#[test]
fn wide_operands_are_cut_to_four_bytes() {
    let (row, _) = parse_instruction(&chars("add #1 #2 #3"), 0).unwrap();
    assert_eq!(row.to_bytes(&SymbolTable::new()), vec![2, 0, 1, 0]);
    let mut assembler = Assembler::new();
    let bytes = assembler.assemble(".data\n.code\nadd #1 #2 #3\nhlt").unwrap();
    assert_eq!(bytes.len(), 72);
    assert_eq!(&bytes[64..], &[2, 0, 1, 0, 0, 0, 0, 0]);
}

#[test]
fn parse_failure_leaves_assembler_empty() {
    let mut assembler = Assembler::new();
    assert!(assembler.assemble(".data\ns: .asciiz 'x'\n.code\nload $0 #1").is_ok());
    assert!(assembler.assemble("load $0 #-5").is_err());
    assert!(assembler.symbols.symbols.is_empty());
    assert!(assembler.ro.is_empty());
    assert!(assembler.errors.is_empty());
}

#[test]
fn image_is_header_data_and_four_bytes_per_row() {
    let mut assembler = Assembler::new();
    let bytes = assembler.assemble(".data\nm: .asciiz 'abc'\n.code\nhlt\nload $1 #7\ninc $1").unwrap();
    assert_eq!(bytes.len(), 64 + assembler.ro.len() + 4 * 3);
    assert_eq!(assembler.ro, b"abc\0".to_vec());
}

#[test]
fn duplicate_label_is_rejected() {
    let mut assembler = Assembler::new();
    let errors = assembler.assemble(".code\nfoo: nop\nfoo: nop").unwrap_err();
    assert_eq!(errors, vec![AssemblerError::SymbolAlreadyDeclared]);
}

#[test]
fn parse_failure_gives_one_parse_error() {
    let mut assembler = Assembler::new();
    let errors = assembler.assemble(".data\n.code\nload $0 $1 $2 $3").unwrap_err();
    assert_eq!(errors.len(), 1);
    assert!(matches!(errors[0], AssemblerError::ParseError { .. }));
}

#[test]
fn unknown_directive_is_rejected() {
    let mut assembler = Assembler::new();
    let errors = assembler.assemble(".data\n.code\nx: .foo 'a'").unwrap_err();
    assert_eq!(errors, vec![AssemblerError::UnknownDirectiveFound { directive: String::from("foo") }]);
}

#[test]
fn string_without_label_is_rejected() {
    let mut assembler = Assembler::new();
    let errors = assembler.assemble(".data\n.asciiz 'a'\n.code").unwrap_err();
    assert_eq!(errors, vec![AssemblerError::StringConstantDeclaredWithoutLabel { instruction: 1 }]);
}

#[test]
fn three_sections_are_insufficient() {
    let mut assembler = Assembler::new();
    let errors = assembler.assemble(".data\n.code\n.data").unwrap_err();
    assert_eq!(errors, vec![AssemblerError::InsufficientSections]);
    let errors = assembler.assemble(".code\nhlt").unwrap_err();
    assert_eq!(errors, vec![AssemblerError::InsufficientSections]);
}

#[test]
fn string_constants_follow_the_header() {
    let mut assembler = Assembler::new();
    let bytes = assembler.assemble(".data\ntest: .asciiz 'Hello'\nb: .asciiz 'Hi'\n.code\nhlt").unwrap();
    assert_eq!(&bytes[64..73], b"Hello\0Hi\0");
    assert_eq!(&bytes[73..77], &[0, 0, 0, 0]);
    assert_eq!(assembler.symbols.symbol_value("test"), Some(0));
    assert_eq!(assembler.symbols.symbol_value("b"), Some(6));
    assert_eq!(assembler.ro, b"Hello\0Hi\0".to_vec());
}

#[test]
fn label_use_resolves_to_code_offset() {
    let mut assembler = Assembler::new();
    let bytes = assembler.assemble(".data\n.code\nload $0 #1\nhere: inc $0\njmp @here").unwrap();
    assert_eq!(&bytes[72..76], &[6, 4, 0, 0]);
    assert_eq!(assembler.phase, AssemblerPhase::Second);
}

#[test]
fn unresolved_label_is_rejected() {
    let mut assembler = Assembler::new();
    let errors = assembler.assemble(".data\n.code\njmp @nowhere\nhlt").unwrap_err();
    assert_eq!(errors, vec![AssemblerError::UnresolvedLabel { name: String::from("nowhere") }]);
    let (row, _) = parse_instruction(&chars("jmp @nowhere"), 0).unwrap();
    assert_eq!(row.to_bytes(&SymbolTable::new()), vec![6, 0, 0, 0]);
}

#[test]
fn register_out_of_range_is_rejected() {
    let mut assembler = Assembler::new();
    let errors = assembler.assemble(".data\n.code\nload $32 #1\nadd $0 $40 $1").unwrap_err();
    assert_eq!(
        errors,
        vec![
            AssemblerError::RegisterOutOfRange { register: 32 },
            AssemblerError::RegisterOutOfRange { register: 40 },
        ]
    );
    assert_eq!(assembler.errors.len(), 2);
    assert!(assembler.assemble(".data\n.code\nload $31 #1").is_ok());
}

#[test]
fn mnemonics_are_case_insensitive_in_source() {
    let mut assembler = Assembler::new();
    let bytes = assembler.assemble(".data .code LOAD $3 #65535 Add $1 $2 $3").unwrap();
    assert_eq!(&bytes[64..], &[1, 3, 255, 255, 2, 1, 2, 3]);
}

#[test]
fn rows_are_padded_to_four_bytes() {
    let rows = ["hlt", "inc $4", "eq $1 $2", "load $1 #2", "add $1 $2 $3", "jmp @x"];
    for r in rows {
        let (row, _) = parse_instruction(&chars(r), 0).unwrap();
        assert_eq!(row.to_bytes(&SymbolTable::new()).len(), 4);
    }
}

#[test]
fn out_of_range_numbers_do_not_parse() {
    assert!(parse_operand(&chars("$256"), 0).is_none());
    assert!(parse_operand(&chars("$255"), 0).is_some());
    assert!(parse_operand(&chars("#2147483648"), 0).is_none());
    assert_eq!(
        parse_operand(&chars("#2147483647"), 0).unwrap().0,
        Token::IntegerOperand { value: i32::MAX }
    );
    assert!(parse_operand(&chars("'open"), 0).is_none());
}

#[test]
fn program_parse_keeps_row_order() {
    let p = parse_program(&chars("  .data\n\tx: load $1 #2\n\n .code  ")).unwrap();
    assert_eq!(p.instructions.len(), 3);
    assert_eq!(p.instructions[1].label, Some(Token::LabelDeclaration { name: String::from("x") }));
    assert!(parse_program(&chars("")).unwrap().instructions.is_empty());
    assert!(parse_program(&chars("load $0 #1 ,")).is_none());
}

#[test]
fn section_names() {
    assert_eq!(AssemblerSection::from_name("data"), AssemblerSection::Data { starting_instruction: None });
    assert_eq!(AssemblerSection::from_name("code"), AssemblerSection::Code { starting_instruction: None });
    assert_eq!(AssemblerSection::from_name("text"), AssemblerSection::Unknown);
}

#[test]
fn symbol_table_offsets() {
    let mut sym = SymbolTable::new();
    sym.add_symbol(Symbol::new(String::from("a"), SymbolType::Label));
    sym.add_symbol(Symbol::new_with_offset(String::from("a"), SymbolType::Label, 3));
    assert!(sym.has_symbol("a"));
    assert!(!sym.has_symbol("b"));
    assert_eq!(sym.symbol_value("a"), None);
    assert!(sym.set_symbol_offset("a", 9));
    assert_eq!(sym.symbol_value("a"), Some(9));
    assert_eq!(sym.symbols[1].offset, Some(3));
    assert!(!sym.set_symbol_offset("b", 1));
}
