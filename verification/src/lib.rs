//! An interpreter core for the CHIP-8 virtual machine.
//!
//! The crate holds the four components of the machine — [`memory::Memory`],
//! [`display::Display`], [`keyboard::Keyboard`] and the processor
//! [`cpu::CPU`] — together with a mathematical model of one instruction step
//! ([`machine`]) against which the processor is verified.

pub mod constants;
pub mod error;
pub mod memory;
pub mod display;
pub mod keyboard;
pub mod quirks;
mod random;
pub mod instruction;
pub mod machine;
pub mod cpu;
pub mod theorems;
pub mod utils;
