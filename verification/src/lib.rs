//! A verified CHIP-8 virtual machine engine with optional SUPER-CHIP
//! extensions.
//!
//! The engine interprets the fixed 16-bit instruction format against a
//! 4096-byte memory, sixteen 8-bit registers, a call stack, two timers, a
//! 16-key keypad and a packed monochrome framebuffer.  The machine's
//! state transitions are specified in [`semantics`] and proved of the
//! executable code in [`emulator`]; [`laws`] states and proves the
//! engine-wide properties.

pub mod action;
pub mod components;
pub mod emulator;
pub mod laws;
pub mod semantics;
