//! A verified interpreter core for the classic CHIP-8 virtual machine:
//! 4096 bytes of memory with built-in font sprites, sixteen 8-bit registers
//! plus a 16-bit index register, a bounded call stack, two countdown timers,
//! a 64x32 one-bit display with XOR drawing and collision detection, a
//! decoder for the 35-instruction set, and the per-frame execution loop.
//!
//! Presentation (window, colors) and physical input are outside collaborators:
//! the display emits change events for a renderer to consume, and the
//! interpreter polls keys and the quit signal through the [`keyboard::Keyboard`]
//! capability trait.

pub mod config;
pub mod display;
pub mod execute;
pub mod fault;
pub mod instructions;
pub mod keyboard;
pub mod laws;
pub mod machine;
pub mod memory;
pub mod operand;
pub mod registers;
pub mod stack;
pub mod state;
pub mod timers;
pub mod variables;
