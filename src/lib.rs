//! A verified interpreter core for the CHIP-8 virtual machine: memory and
//! registers, the fetch-decode-execute cycle, sprite drawing with collision
//! detection, and the timers.
pub mod font;
pub mod instruction;
pub mod laws;
pub mod machine;

pub use instruction::{decode, Instruction};
pub use machine::{Chip8, ChipError};
