//! The two 8-bit countdown timers (delay and sound).
//!
//! Each timer is decremented by exactly one once per frame and clamps at
//! zero: a timer never goes below zero, no matter how often it is
//! decremented.

use vstd::prelude::*;

verus! {

/// One clamped decrement step: positive values go down by one, zero stays.
pub open spec fn spec_decrement(v: u8) -> u8 {
    if v > 0 {
        (v - 1) as u8
    } else {
        0
    }
}

/// The value of a timer after `n` clamped decrements from `v`.
pub open spec fn spec_decrement_n(v: u8, n: nat) -> u8
    decreases n,
{
    if n == 0 {
        v
    } else {
        spec_decrement(spec_decrement_n(v, (n - 1) as nat))
    }
}

/// No decrement count can drive a timer below zero: after `n` decrements
/// the value is `v - n` while that is still positive, and exactly zero
/// from then on.
pub proof fn lemma_timer_never_negative(v: u8, n: nat)
    ensures
        spec_decrement_n(v, n) == if n <= v {
            (v - n) as u8
        } else {
            0u8
        },
    decreases n,
{
    if n > 0 {
        lemma_timer_never_negative(v, (n - 1) as nat);
    }
}

/// The timers of a CHIP-8 machine.
#[derive(Debug, PartialEq, Eq, Structural)]
pub struct Timers {
    pub delay_timer: u8,
    pub sound_timer: u8,
}

impl Timers {
    /// Creates timers with both counts at zero.
    pub fn new() -> (r: Timers)
        ensures
            r.delay_timer == 0,
            r.sound_timer == 0,
    {
        Timers { delay_timer: 0, sound_timer: 0 }
    }

    /// Decrements each timer that is still positive; a timer at zero stays
    /// at zero.
    pub fn decrement_timers(&mut self)
        ensures
            final(self).delay_timer == spec_decrement(old(self).delay_timer),
            final(self).sound_timer == spec_decrement(old(self).sound_timer),
    {
        if self.delay_timer > 0 {
            self.delay_timer = self.delay_timer - 1;
        }
        if self.sound_timer > 0 {
            self.sound_timer = self.sound_timer - 1;
        }
    }
}

} // verus!
