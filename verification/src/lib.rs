//! A verified virtual machine for a classic 8-bit instruction set: a
//! fetch-decode-execute core over 4 KiB of memory, sixteen 8-bit registers,
//! a call stack, two countdown timers, a 64x32 monochrome framebuffer and a
//! 16-key input latch.
//!
//! The core is pure state transformation: the host feeds key events into the
//! [`keypad::Keypad`], runs [`emulator::Emulator::cycle`] some number of times
//! per frame, ticks the timers once with [`emulator::Emulator::timer`], and
//! presents the [`display::Display`] contents. Rendering, event polling and
//! file loading live outside this crate.

pub mod display;
pub mod emulator;
pub mod font;
pub mod keypad;
pub mod model;

use vstd::prelude::*;

verus! {

/// Width of the framebuffer in pixels.
pub const SCREEN_WIDTH: usize = 64;

/// Height of the framebuffer in pixels.
pub const SCREEN_HEIGHT: usize = 32;

/// Total number of pixels in the framebuffer.
pub const SCREEN_SIZE: usize = SCREEN_WIDTH * SCREEN_HEIGHT;

/// Number of logical buttons on the input device.
pub const KEYPAD_SIZE: usize = 16;

/// Size in bytes of the built-in font table (16 glyphs of 5 bytes each).
pub const FONT_SIZE: usize = 80;

/// Size of the machine's memory in bytes.
pub const RAM_SIZE: usize = 4096;

/// Capacity of the call stack, in return addresses.
pub const STACK_SIZE: usize = 16;

/// Number of general-purpose registers (`V0` through `VF`).
pub const NUM_REGISTERS: usize = 16;

/// Address at which loaded programs begin; the program counter starts here.
pub const START_ADDRESS: u16 = 0x200;

/// Largest program that fits between the start address and the end of memory.
pub const MAX_PROGRAM_SIZE: usize = 3584;

} // verus!
