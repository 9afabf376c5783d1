//! A CHIP-8 virtual machine: memory, registers, framebuffer, keypad and the
//! fetch-decode-execute interpreter, each with a proved contract.

pub mod cpu;
pub mod events;
pub mod interpreter;
pub mod laws;
pub mod machine;
pub mod memory;
pub mod opcode;
mod rng;
pub mod screen;

pub use crate::cpu::Cpu;
pub use crate::events::{EventDriver, Key};
pub use crate::interpreter::Chip8;
pub use crate::machine::{Fault, FaultKind, ProgramCounter};
pub use crate::memory::{LoadError, Memory};
pub use crate::opcode::{decode, Instruction};
pub use crate::screen::{Framebuffer, Tile};
