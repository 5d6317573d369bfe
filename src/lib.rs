//! An emulator of the LC-3, a 16-bit educational computer: registers, memory
//! with a memory-mapped keyboard, the fifteen opcodes and the console traps.
pub mod register;
pub mod vm;
pub mod instruction;
pub mod trap;
pub mod program;
