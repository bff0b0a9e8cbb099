//! An assembler and interpreter for a reduced RV32IM-like instruction set.
//!
//! Text is parsed line by line into structured operations, pseudo-instructions are
//! expanded into canonical ones, labels are resolved into pc-relative byte offsets and
//! every operation is encoded as a 32-bit instruction word.  The `machine` module runs
//! such words against a register file and a flat byte memory.

pub mod compile;
pub mod def;
pub mod error;
pub mod instruction;
pub mod machine;
pub mod parse;
pub mod text;

pub use error::Error;
pub use instruction::{Instruction, InstructionFormat};
