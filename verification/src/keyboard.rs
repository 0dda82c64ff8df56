//! The input capability of the interpreter.
//!
//! The machine sees 16 logical keys (hex 0 through F) and a quit signal,
//! nothing more. A frontend implements this trait over whatever physical
//! input it has; a test implements it with canned answers. Nothing is
//! assumed about the answers: every verified function that polls a key
//! states what holds of the machine for each possible answer.

use vstd::prelude::*;

verus! {

/// What the interpreter may ask of the outside world's input.
pub trait Keyboard {
    /// Whether the logical key `key` (0 through 15) is currently held.
    fn is_key_pressed(&mut self, key: u8) -> bool;

    /// Blocks until some mapped key is pressed and returns its logical
    /// number. This is the machine's only suspension point.
    fn wait_for_key_press(&mut self) -> u8;

    /// Whether an external quit or terminate signal has arrived.
    fn is_quit(&mut self) -> bool;
}

} // verus!
