//! The bounded call stack: sixteen slots of return addresses in
//! last-in-first-out order.
//!
//! Pushing onto a full stack and popping an empty stack are programmer
//! errors that surface as explicit failures, never as silent reads or
//! writes past the ends.

use vstd::prelude::*;

verus! {

/// Capacity of the call stack.
pub const STACK_SIZE: usize = 16;

/// Error raised by a stack operation.
#[derive(Debug, Clone, Copy, PartialEq, Eq, Structural)]
pub enum StackError {
    /// A push was attempted while all sixteen slots were occupied.
    Full,
    /// A pop was attempted while no slot was occupied.
    Empty,
}

/// The call stack of a CHIP-8 machine. Its view is the sequence of live
/// values, bottom first.
#[derive(Debug)]
pub struct Stack {
    slots: Vec<usize>,
    stack_pointer: usize,
}

impl Stack {
    /// Structural invariant: sixteen slots, with the pointer at or below
    /// the capacity.
    pub closed spec fn wf(&self) -> bool {
        &&& self.slots@.len() == STACK_SIZE
        &&& self.stack_pointer <= STACK_SIZE
    }

    /// The live values, bottom of the stack first.
    pub closed spec fn view(&self) -> Seq<usize> {
        self.slots@.take(self.stack_pointer as int)
    }

    /// Creates an empty stack.
    pub fn new() -> (r: Stack)
        ensures
            r.wf(),
            r@ == Seq::<usize>::empty(),
    {
        let mut slots: Vec<usize> = Vec::new();
        let mut k: usize = 0;
        while k < STACK_SIZE
            invariant
                k <= STACK_SIZE,
                slots@.len() == k,
            decreases STACK_SIZE - k,
        {
            slots.push(0);
            k = k + 1;
        }
        let r = Stack { slots, stack_pointer: 0 };
        proof {
            assert(r@ =~= Seq::<usize>::empty());
        }
        r
    }

    /// Pushes a value onto the top of the stack; fails with
    /// `StackError::Full` exactly when all sixteen slots are occupied.
    pub fn push(&mut self, val: usize) -> (r: Result<(), StackError>)
        requires
            old(self).wf(),
        ensures
            final(self).wf(),
            match r {
                Ok(()) => {
                    &&& old(self)@.len() < STACK_SIZE
                    &&& final(self)@ == old(self)@.push(val)
                },
                Err(e) => {
                    &&& old(self)@.len() == STACK_SIZE
                    &&& e == StackError::Full
                    &&& final(self)@ == old(self)@
                },
            },
    {
        if self.stack_pointer >= STACK_SIZE {
            return Err(StackError::Full);
        }
        self.slots.set(self.stack_pointer, val);
        self.stack_pointer = self.stack_pointer + 1;
        proof {
            assert(self@ =~= old(self)@.push(val));
        }
        Ok(())
    }

    /// Pops the value on top of the stack; fails with `StackError::Empty`
    /// exactly when the stack holds no value.
    pub fn pop(&mut self) -> (r: Result<usize, StackError>)
        requires
            old(self).wf(),
        ensures
            final(self).wf(),
            match r {
                Ok(v) => {
                    &&& old(self)@.len() > 0
                    &&& v == old(self)@.last()
                    &&& final(self)@ == old(self)@.drop_last()
                },
                Err(e) => {
                    &&& old(self)@.len() == 0
                    &&& e == StackError::Empty
                    &&& final(self)@ == old(self)@
                },
            },
    {
        if self.stack_pointer == 0 {
            return Err(StackError::Empty);
        }
        self.stack_pointer = self.stack_pointer - 1;
        let v = self.slots[self.stack_pointer];
        proof {
            assert(self@ =~= old(self)@.drop_last());
        }
        Ok(v)
    }

    /// Returns the value on top of the stack, or `None` when it is empty.
    pub fn top(&self) -> (r: Option<usize>)
        requires
            self.wf(),
        ensures
            match r {
                Some(v) => self@.len() > 0 && v == self@.last(),
                None => self@.len() == 0,
            },
    {
        if self.stack_pointer == 0 {
            return None;
        }
        Some(self.slots[self.stack_pointer - 1])
    }
}

} // verus!
