use uvm::error::ParsingError;
use uvm::instruction::{Instruction, InstructionType};
use uvm::machine::{OutputEvent, UVM};

fn loaded(source: &str) -> UVM {
    let mut vm = UVM::new();
    let r = vm.load_program_from_source(source);
    assert!(r.is_none());
    vm
}

#[test]
fn pushes_in_order_bottom_to_top() {
    let mut vm = loaded("push 10\npush 20\npush 30\nhlt");
    let r = vm.run_bounded(100);
    assert!(r.is_none());
    assert!(vm.halt);
    assert_eq!(vm.stack, vec![10, 20, 30]);
}

#[test]
fn add_program_leaves_sum() {
    let mut vm = loaded("push 3\npush 4\nadd\nhlt");
    let r = vm.run_bounded(100);
    assert!(r.is_none());
    assert!(vm.halt);
    assert_eq!(vm.stack, vec![7]);
}

#[test]
fn division_by_zero_faults_and_pushes_nothing() {
    let mut vm = loaded("push 5\npush 0\ndiv\nhlt");
    let r = vm.run_bounded(100);
    assert_eq!(r, Some(ParsingError::DivisionByZero));
    assert!(!vm.halt);
    // The operands were consumed and no quotient was pushed.
    assert_eq!(vm.stack, Vec::<i64>::new());
}

#[test]
fn pop_on_empty_stack_underflows() {
    let mut vm = loaded("pop\nhlt");
    let r = vm.run_bounded(100);
    assert_eq!(r, Some(ParsingError::StackUnderflow));
}

#[test]
fn dup_copies_element_at_depth() {
    // Depth 0 is the current top.
    let mut vm = loaded("push 10\npush 20\ndup 0\nhlt");
    let r = vm.run_bounded(100);
    assert!(r.is_none());
    assert_eq!(vm.stack, vec![10, 20, 20]);
}

#[test]
fn dup_deeper_element() {
    let mut vm = loaded("push 10\npush 20\ndup 1\nhlt");
    let r = vm.run_bounded(100);
    assert!(r.is_none());
    assert_eq!(vm.stack, vec![10, 20, 10]);
}

#[test]
fn dup_negative_depth_is_illegal_operand() {
    let mut vm = loaded("push 1\ndup -1\nhlt");
    let r = vm.run_bounded(100);
    assert_eq!(r, Some(ParsingError::IllegalOperand));
}

#[test]
fn dup_past_bottom_underflows() {
    let mut vm = loaded("push 1\ndup 1\nhlt");
    let r = vm.run_bounded(100);
    assert_eq!(r, Some(ParsingError::StackUnderflow));
}

#[test]
fn swap_exchanges_top_with_depth() {
    let mut vm = loaded("push 10\npush 20\npush 30\nswp 1\nhlt");
    let r = vm.run_bounded(100);
    assert!(r.is_none());
    assert_eq!(vm.stack, vec![10, 30, 20]);
}

#[test]
fn swap_depth_zero_is_illegal_operand() {
    let mut vm = loaded("push 1\nswp 0\nhlt");
    let r = vm.run_bounded(100);
    assert_eq!(r, Some(ParsingError::IllegalOperand));
}

#[test]
fn bounded_run_of_infinite_loop_stops_at_limit_without_fault() {
    let mut vm = loaded(".top:\njmp top");
    let r = vm.run_bounded(1000);
    assert!(r.is_none());
    assert!(!vm.halt);
    assert_eq!(vm.instruction_pointer, 0);
}

#[test]
fn bounded_run_with_zero_limit_does_nothing() {
    let mut vm = loaded("push 1\nhlt");
    let r = vm.run_bounded(0);
    assert!(r.is_none());
    assert_eq!(vm.stack, Vec::<i64>::new());
    assert!(!vm.halt);
}

#[test]
fn output_does_not_mutate_stack() {
    let mut vm = loaded("push 10\npush 20\nout\noutf\nhlt");
    let r = vm.run_bounded(100);
    assert!(r.is_none());
    assert_eq!(vm.stack, vec![10, 20]);
    assert_eq!(vm.output, vec![OutputEvent::Out(20), OutputEvent::Outf(20)]);
}

#[test]
fn dump_records_event_and_keeps_stack() {
    let mut vm = loaded("push 1\npush 2\ndmp\nhlt");
    let r = vm.run_bounded(100);
    assert!(r.is_none());
    assert_eq!(vm.stack, vec![1, 2]);
    assert_eq!(vm.output, vec![OutputEvent::Dump]);
}

#[test]
fn output_on_empty_stack_underflows() {
    let mut vm = loaded("out\nhlt");
    let r = vm.run_bounded(100);
    assert_eq!(r, Some(ParsingError::StackUnderflow));
}

#[test]
fn arithmetic_operand_order() {
    // The earlier-pushed value is the left operand.
    let mut vm = loaded("push 10\npush 4\nsub\nhlt");
    let r = vm.run_bounded(100);
    assert!(r.is_none());
    assert_eq!(vm.stack, vec![6]);

    let mut vm = loaded("push 6\npush 7\nmul\nhlt");
    assert!(vm.run_bounded(100).is_none());
    assert_eq!(vm.stack, vec![42]);

    let mut vm = loaded("push 14\npush 4\ndiv\nhlt");
    assert!(vm.run_bounded(100).is_none());
    assert_eq!(vm.stack, vec![3]);
}

#[test]
fn division_truncates_toward_zero() {
    let mut vm = loaded("push -7\npush 2\ndiv\nhlt");
    let r = vm.run_bounded(100);
    assert!(r.is_none());
    assert_eq!(vm.stack, vec![-3]);
}

#[test]
fn comparison_and_not_results() {
    let mut vm = loaded("push 3\npush 3\neql\nhlt");
    assert!(vm.run_bounded(100).is_none());
    assert_eq!(vm.stack, vec![1]);

    let mut vm = loaded("push 3\npush 4\ngeql\nhlt");
    assert!(vm.run_bounded(100).is_none());
    assert_eq!(vm.stack, vec![0]);

    let mut vm = loaded("push 4\npush 3\ngeql\nhlt");
    assert!(vm.run_bounded(100).is_none());
    assert_eq!(vm.stack, vec![1]);

    let mut vm = loaded("push 0\nnot\nhlt");
    assert!(vm.run_bounded(100).is_none());
    assert_eq!(vm.stack, vec![1]);

    let mut vm = loaded("push 9\nnot\nhlt");
    assert!(vm.run_bounded(100).is_none());
    assert_eq!(vm.stack, vec![0]);
}

#[test]
fn jmpif_not_taken_on_zero_and_keeps_tested_value() {
    // The conditional jump peeks without consuming the tested value.
    let mut vm = loaded(".top:\npush 1\npop\npush 0\njmpif top\nhlt");
    let r = vm.run_bounded(100);
    assert!(r.is_none());
    assert!(vm.halt);
    assert_eq!(vm.stack, vec![0]);
}

#[test]
fn jmpif_taken_keeps_tested_value() {
    let mut vm = loaded(".top:\npush 7\njmpif top");
    // push, jmpif (taken), push again: three steps.
    let r = vm.run_bounded(3);
    assert!(r.is_none());
    assert_eq!(vm.stack, vec![7, 7]);
    assert_eq!(vm.instruction_pointer, 1);
}

#[test]
fn out_of_range_jump_faults_on_next_fetch() {
    let mut vm = loaded("jmp 99\nhlt");
    let r = vm.run_bounded(100);
    assert_eq!(r, Some(ParsingError::InvalidInstructionPointer));
    assert_eq!(vm.instruction_pointer, 99);
}

#[test]
fn running_past_program_end_faults() {
    let mut vm = loaded("push 1");
    let r = vm.run_bounded(100);
    assert_eq!(r, Some(ParsingError::InvalidInstructionPointer));
}

#[test]
fn halt_leaves_pointer_on_halt_instruction() {
    let mut vm = loaded("push 1\nhlt");
    let r = vm.run_bounded(100);
    assert!(r.is_none());
    assert!(vm.halt);
    assert_eq!(vm.instruction_pointer, 1);
}

#[test]
fn missing_operand_is_illegal_operand_at_run_time() {
    // The loader cannot build such an instruction; construct it directly.
    let mut vm = UVM::new();
    vm.program.push(Instruction::new(InstructionType::Push, None));
    let r = vm.execute_instruction();
    assert_eq!(r, Some(ParsingError::IllegalOperand));
}

#[test]
fn missing_depth_operand_is_skipped_silently() {
    // Duplicate and Swap without an operand change nothing but the pointer.
    let mut vm = UVM::new();
    vm.program.push(Instruction::new(InstructionType::Duplicate, None));
    vm.program.push(Instruction::new(InstructionType::Swap, None));
    assert!(vm.execute_instruction().is_none());
    assert!(vm.execute_instruction().is_none());
    assert_eq!(vm.stack, Vec::<i64>::new());
    assert_eq!(vm.instruction_pointer, 2);
}

#[test]
fn wrapping_addition_at_the_extremes() {
    let mut vm = UVM::new();
    vm.program.push(Instruction::new(InstructionType::Push, Some(i64::MAX)));
    vm.program.push(Instruction::new(InstructionType::Push, Some(1)));
    vm.program.push(Instruction::new(InstructionType::Add, None));
    vm.program.push(Instruction::new(InstructionType::Halt, None));
    let r = vm.run_bounded(10);
    assert!(r.is_none());
    assert_eq!(vm.stack, vec![i64::MIN]);
}

#[test]
fn negative_jump_target_lands_on_address_zero() {
    let mut vm = loaded("push 1\njmp -5");
    assert!(vm.execute_instruction().is_none());
    assert!(vm.execute_instruction().is_none());
    assert_eq!(vm.instruction_pointer, 0);
}
