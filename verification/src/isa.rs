//! The USONIC instruction set: instructions that walk over the state which an operation reads
//! and defines, the registers they use, and the context they read.

pub mod instr;
pub mod regs;
pub mod context;
pub mod microcode;
pub mod exec;
