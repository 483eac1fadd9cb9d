//! A CHIP-8 virtual machine core: memory, registers, call stack, timers,
//! keypad and a 64x32 monochrome display, driven one instruction at a time.
//!
//! The host owns the clock: it calls [`chip_8::Chip8::cycle`] at the CPU rate
//! and [`chip_8::Chip8::cycle_timers`] at 60 Hz, forwards key transitions and
//! renders the pixel buffer.

pub mod font;
pub mod instruction;
pub mod display;
pub mod machine;
pub mod chip_8;
mod rng;
pub mod laws;
