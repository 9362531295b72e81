use vstd::prelude::*;

verus! {

/// The opcode of an instruction, drawn from a fixed closed set.
#[derive(Clone, Copy, Debug, PartialEq, Eq)]
pub enum InstructionType {
    Push,
    Pop,
    Duplicate,
    Swap,
    Jump,
    JumpIf,
    Equal,
    GreaterEqual,
    Not,
    Add,
    Subtract,
    Multiply,
    Divide,
    Dump,
    Output,
    Outputf,
    Halt,
}

/// One resolved instruction: an opcode plus an optional operand value.
/// Built once by the loader and never mutated afterwards.
#[derive(Clone, Copy, Debug, PartialEq, Eq)]
pub struct Instruction {
    pub instruction_type: InstructionType,
    pub operand: Option<i64>,
}

impl Instruction {
    pub fn new(instruction_type: InstructionType, operand: Option<i64>) -> (r: Self)
        ensures
            r == (Instruction { instruction_type, operand }),
    {
        Self { instruction_type, operand }
    }
}

} // verus!
