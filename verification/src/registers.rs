//! The sixteen 8-bit general-purpose V registers and the 16-bit index
//! register.
//!
//! Register VF (index 15) doubles as the flags output of the arithmetic,
//! shift, and draw instructions; what it means after an instruction is
//! documented on that instruction, never inferred.

use vstd::prelude::*;

verus! {

/// Number of general-purpose V registers.
pub const NUM_REGISTERS: usize = 16;

/// Index of the flags register VF.
pub const FLAG_REGISTER: usize = 15;

/// The registers of a CHIP-8 machine.
#[derive(Debug)]
pub struct Registers {
    pub v_registers: Vec<u8>,
    pub i_register: u16,
}

impl Registers {
    /// Structural invariant: there are always exactly sixteen V registers.
    pub open spec fn wf(&self) -> bool {
        self.v_registers@.len() == NUM_REGISTERS
    }

    /// Creates registers with every value set to zero.
    pub fn new() -> (r: Registers)
        ensures
            r.wf(),
            r.i_register == 0,
            forall|k: int| 0 <= k < NUM_REGISTERS ==> r.v_registers@[k] == 0u8,
    {
        let mut v: Vec<u8> = Vec::new();
        let mut k: usize = 0;
        while k < NUM_REGISTERS
            invariant
                k <= NUM_REGISTERS,
                v@.len() == k,
                forall|j: int| 0 <= j < k ==> v@[j] == 0u8,
            decreases NUM_REGISTERS - k,
        {
            v.push(0);
            k = k + 1;
        }
        Registers { v_registers: v, i_register: 0 }
    }
}

} // verus!
