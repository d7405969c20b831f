//! A virtual machine for a 16-bit-word instruction set with eight registers,
//! a word-addressed memory, a shared call/value stack, a buffered input queue
//! and a structured disassembler used by an interactive inspector.

pub mod disasm;
pub mod input;
pub mod inspector;
pub mod laws;
pub mod machine;
pub mod maze;
pub mod word;
