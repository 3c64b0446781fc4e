//! A virtual machine core for a classic 8-bit instruction set: sixteen
//! registers, 4 KiB of memory, a 64x32 monochrome display, a 16-key keypad
//! and two countdown timers.
//!
//! The host owns program loading, rendering, sound and pacing. It hands the
//! core program bytes and key states, asks it to execute one instruction at a
//! time, and reads the display and the timers back.
//!
//! [`machine`] holds the mathematical model of the machine and [`instr`] the
//! instruction set; [`emu`] is the executable machine, proved to follow the
//! model; [`laws`] states what holds of every run.

pub mod emu;
mod entropy;
pub mod font;
pub mod instr;
pub mod laws;
pub mod machine;

pub use emu::Emu;
pub use instr::{decode, Instr};
pub use machine::{Fault, SCREEN_HEIGHT, SCREEN_WIDTH};
