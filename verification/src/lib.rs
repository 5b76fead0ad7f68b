//! CHIP-8 interpreter core: memory, display, keypad, instruction decoding and
//! execution, with every operation specified over a mathematical model of the
//! machine and verified against it.
//!
//! [`Chip8::step`] executes one instruction. Timer updates are separate and
//! are performed with [`Chip8::tick_timers`]. This lets a frontend schedule
//! CPU execution and the 60 Hz timers independently; [`Emulator`] does that
//! scheduling from elapsed time, and [`runtime::Worker`] holds the decisions
//! of a frontend's emulator thread.

pub mod chip8;
pub mod config;
pub mod disassembly;
pub mod display;
pub mod emulator;
pub mod error;
pub mod font;
pub mod input;
pub mod keypad;
pub mod laws;
pub mod machine;
pub mod memory;
pub mod opcode;
mod rng;
pub mod runtime;
pub mod utils;

pub use chip8::{Chip8, CpuState};
pub use config::Config;
pub use display::Display;
pub use emulator::Emulator;
pub use error::Chip8Error;
pub use keypad::Keypad;
pub use memory::Memory;
pub use opcode::{decode, Instruction};
