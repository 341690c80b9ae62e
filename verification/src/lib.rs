//! A CHIP-8 virtual machine.
//!
//! The machine interprets sixteen groups of two-byte instructions on 4096
//! bytes of memory, sixteen registers, a stack of return addresses, two
//! timers, a display of 64 by 32 cells and a keypad of sixteen keys.
//!
//! - `machine` and `sprite` hold the mathematical model: the state of the
//!   machine and the effect of every instruction on it.
//! - `chip8_cpu` holds the processor, which runs instructions on fixed
//!   arrays and is proved to do what the model says.
//! - `timeline` holds the clocks of the loop that drives the processor at a
//!   fixed rate, and `chip8_core` the emulator that owns processor and clocks.
//! - `graphics` holds the host side of display and keypad.
//!
//! The library opens no window, reads no file and keeps no time: the caller
//! hands it what was read and how much time has passed, and does what the
//! reports of the library ask for.

pub mod chip8_core;
pub mod chip8_cpu;
pub mod constants;
pub mod error;
pub mod graphics;
pub mod machine;
pub mod sprite;
pub mod timeline;

pub use crate::chip8_core::TinyChip8;
pub use crate::chip8_cpu::Chip8Cpu;
pub use crate::error::Chip8Error;
