use uvm::error::LexingError;
use uvm::instruction::{Instruction, InstructionType};
use uvm::label::{Label, LabelTable};
use uvm::machine::UVM;

#[test]
fn loads_simple_program() {
    let mut vm = UVM::new();
    let r = vm.load_program_from_source("push 3\npush 4\nadd\nhlt\n");
    assert!(r.is_none());
    assert_eq!(
        vm.program,
        vec![
            Instruction::new(InstructionType::Push, Some(3)),
            Instruction::new(InstructionType::Push, Some(4)),
            Instruction::new(InstructionType::Add, None),
            Instruction::new(InstructionType::Halt, None),
        ]
    );
}

#[test]
fn skips_blank_and_comment_lines() {
    let mut vm = UVM::new();
    let r = vm.load_program_from_source("\n   \n; a comment line\npush 1\n\nhlt");
    assert!(r.is_none());
    assert_eq!(
        vm.program,
        vec![
            Instruction::new(InstructionType::Push, Some(1)),
            Instruction::new(InstructionType::Halt, None),
        ]
    );
}

#[test]
fn lone_semicolon_token_is_illegal_label() {
    // A single token starting with `;` is not a comment.
    let mut vm = UVM::new();
    let r = vm.load_program_from_source(";alone");
    assert_eq!(r, Some(LexingError::IllegalLabel));
}

#[test]
fn unknown_single_token_is_illegal_label() {
    let mut vm = UVM::new();
    let r = vm.load_program_from_source("bogus");
    assert_eq!(r, Some(LexingError::IllegalLabel));
}

#[test]
fn unknown_mnemonic_with_numeric_operand_is_illegal_operation() {
    let mut vm = UVM::new();
    let r = vm.load_program_from_source("bogus 5");
    assert_eq!(r, Some(LexingError::IllegalOperation));
}

#[test]
fn unresolvable_operand_is_illegal_operand() {
    let mut vm = UVM::new();
    let r = vm.load_program_from_source("push nowhere");
    assert_eq!(r, Some(LexingError::IllegalOperand));
}

#[test]
fn three_token_line_is_illegal_operand() {
    let mut vm = UVM::new();
    let r = vm.load_program_from_source("push 1 2");
    assert_eq!(r, Some(LexingError::IllegalOperand));
}

#[test]
fn single_line_label_and_jump_is_illegal_operand() {
    // The whole program on one line is a malformed five-token line.
    let mut vm = UVM::new();
    let r = vm.load_program_from_source(".loop: push 1 jmp loop");
    assert_eq!(r, Some(LexingError::IllegalOperand));
}

#[test]
fn forward_label_reference_fails_to_load() {
    // The label is declared on a later line than the jump that uses it.
    let mut vm = UVM::new();
    let r = vm.load_program_from_source("jmp end\n.end:\nhlt");
    assert_eq!(r, Some(LexingError::IllegalOperand));
}

#[test]
fn backward_label_reference_loads_and_jumps() {
    let mut vm = UVM::new();
    let r = vm.load_program_from_source(".start:\npush 1\njmp start");
    assert!(r.is_none());
    assert_eq!(
        vm.program,
        vec![
            Instruction::new(InstructionType::Push, Some(1)),
            Instruction::new(InstructionType::Jump, Some(0)),
        ]
    );
    // Running the two instructions brings the pointer back to the label's
    // recorded address.
    assert!(vm.execute_instruction().is_none());
    assert!(vm.execute_instruction().is_none());
    assert_eq!(vm.instruction_pointer, 0);
}

#[test]
fn label_address_is_next_instruction_slot() {
    let mut vm = UVM::new();
    let r = vm.load_program_from_source("push 1\npush 2\n.here:\npush 3\njmp here");
    assert!(r.is_none());
    // `.here:` was declared after two emitted instructions.
    assert_eq!(vm.program[3], Instruction::new(InstructionType::Jump, Some(2)));
}

#[test]
fn duplicate_label_first_declaration_wins() {
    let mut vm = UVM::new();
    let r = vm.load_program_from_source(".a:\npush 5\n.a:\npush 6\njmp a");
    assert!(r.is_none());
    assert_eq!(vm.program[2], Instruction::new(InstructionType::Jump, Some(0)));
}

#[test]
fn operand_parses_negative_and_signed_literals() {
    let mut vm = UVM::new();
    let r = vm.load_program_from_source("push -12\npush +34\nhlt");
    assert!(r.is_none());
    assert_eq!(vm.program[0], Instruction::new(InstructionType::Push, Some(-12)));
    assert_eq!(vm.program[1], Instruction::new(InstructionType::Push, Some(34)));
}

#[test]
fn overlarge_literal_is_illegal_operand() {
    let mut vm = UVM::new();
    let r = vm.load_program_from_source("push 99999999999999999999999");
    assert_eq!(r, Some(LexingError::IllegalOperand));
}

#[test]
fn first_fault_aborts_loading() {
    let mut vm = UVM::new();
    let r = vm.load_program_from_source("push 1\nbogus\npush 2");
    assert_eq!(r, Some(LexingError::IllegalLabel));
    // Only the line before the fault was emitted.
    assert_eq!(vm.program.len(), 1);
}

#[test]
fn label_table_finds_first_match() {
    let mut table = LabelTable::new();
    table.push(Label::new(String::from("loop"), 3));
    table.push(Label::new(String::from("loop"), 7));
    table.push(Label::new(String::from("end"), 9));
    assert_eq!(table.find("loop"), Some(3));
    assert_eq!(table.find("end"), Some(9));
    assert_eq!(table.find("nowhere"), None);
}
