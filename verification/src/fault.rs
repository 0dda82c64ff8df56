//! Fatal conditions that halt the interpreter.
//!
//! There are no retries and no partial failures: a running program either
//! proceeds deterministically (save for the intentional randomness of the
//! RND instruction) or the interpreter stops with one of these conditions.

use vstd::prelude::*;

use crate::instructions::InstructionError;
use crate::stack::StackError;

verus! {

/// The fault, if any, that a unit-result operation raised.
pub open spec fn fault_of(r: Result<(), Fault>) -> Option<Fault> {
    match r {
        Ok(_) => None,
        Err(f) => Some(f),
    }
}

/// A fatal condition raised during execution.
#[derive(Debug, Clone, Copy, PartialEq, Eq, Structural)]
pub enum Fault {
    /// The call stack overflowed or underflowed.
    Stack(StackError),
    /// An instruction addressed memory outside `[0, 4096)`.
    MemoryOutOfBounds,
    /// The fetched instruction word matched no instruction pattern.
    BadInstruction(InstructionError),
}

} // verus!
