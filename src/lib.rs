//! A CHIP-8 virtual machine: memory, timers, instruction decoding and the
//! execution engine, with the framebuffer arithmetic that sprites use.
use vstd::prelude::*;

pub mod inst;
pub mod ram;
pub mod timer;
pub mod cpu;
pub mod chip;
pub mod frame;
pub mod keymap;

verus! {

/// Address at which the built-in font glyphs start.
pub const HEAD_OF_SPRITE: u16 = 0;

/// Address at which programs are loaded and the program counter starts.
pub const HEAD_OF_PROGRAM: u16 = 0x200;

/// Size of memory in bytes.
pub const RAM_SIZE: usize = 0x1000;

/// Framebuffer height in pixels.
pub const HEIGHT: usize = 32;

/// Framebuffer width in pixels.
pub const WIDTH: usize = 64;

} // verus!
