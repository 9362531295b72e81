//! A small stack-based bytecode virtual machine.
//!
//! The loader turns line-oriented assembly text into a resolved instruction
//! sequence, recording label declarations in a label table as it goes; the
//! execution engine runs that sequence against an operand stack until a halt
//! instruction, a fault, or (in bounded mode) a step limit.

pub mod error;
pub mod instruction;
pub mod label;
pub mod laws;
pub mod machine;
pub mod text;
