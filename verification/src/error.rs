use vstd::prelude::*;

verus! {

/// Faults reported by the loader while turning program text into
/// an instruction sequence. The first fault aborts loading.
#[derive(Clone, Copy, Debug, PartialEq, Eq)]
pub enum LexingError {
    /// A two-token line whose mnemonic is not one of the operand-taking ones.
    IllegalOperation,
    /// An operand that neither parses as a number nor resolves as a label,
    /// or a line with too many tokens.
    IllegalOperand,
    /// A single-token line that is neither a known mnemonic nor a label
    /// declaration.
    IllegalLabel,
}

/// Faults reported by the execution engine while running a program.
/// The first fault aborts the run.
#[derive(Clone, Copy, Debug, PartialEq, Eq)]
pub enum ParsingError {
    /// An instruction needed more operands on the stack than were present.
    StackUnderflow,
    /// A divide whose divisor was zero.
    DivisionByZero,
    /// The instruction pointer was outside the program when dereferenced.
    InvalidInstructionPointer,
    /// An instruction that requires an operand was built without one;
    /// unreachable through the loader, but checked defensively.
    IllegalOperand,
}

} // verus!
