//! A verified CHIP-8 interpreter.
//!
//! The library owns the whole machine model: memory, registers, program
//! counter, address register, call stack, timers and framebuffer. It exposes
//! one stepping operation, [`cpu::CPU::cycle`], whose behaviour is stated
//! against the mathematical transition function [`model::cycle_model`].
//! Rendering, audio, key mapping and pacing are left to the host program.

use vstd::prelude::*;

pub mod cpu;
pub mod laws;
pub mod model;

verus! {

/// Width of the emulated display in pixels.
pub const DISPLAY_W: usize = 64;

/// Height of the emulated display in pixels.
pub const DISPLAY_H: usize = 32;

/// Number of keys on the CHIP-8 keypad.
pub const KEY_SIZE: usize = 16;

} // verus!
