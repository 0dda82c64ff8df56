//! Properties of the instruction semantics that cut across components,
//! stated over [`spec_execute`] and proved once and for all.
//!
//! The display's own laws (drawing a sprite twice restores the pixels;
//! the exact characterization of the collision flag) stand beside the
//! draw model in [`crate::display`]; the timer clamping law stands in
//! [`crate::timers`].

use vstd::prelude::*;

use crate::execute::spec_execute;
use crate::instructions::Instruction;
use crate::memory::MAX_SIZE;
use crate::operand::Operand;
use crate::registers::{FLAG_REGISTER, NUM_REGISTERS};
use crate::stack::STACK_SIZE;
use crate::state::{wf_view, MachineView};

verus! {

/// The plain add (7xkk) wraps modulo 256 and touches no flag: VF keeps
/// its value (the destination register is not VF here).
pub proof fn lemma_add_wraps(m: MachineView, x: u8, kk: u8)
    requires
        wf_view(m),
        x < FLAG_REGISTER,
    ensures
        ({
            let r = spec_execute(
                Instruction::Add { dst: Operand::VReg(x), src: Operand::Literal(kk as u16) },
                m,
            );
            &&& r is Ok
            &&& r->Ok_0.v[x as int] == (m.v[x as int] + kk) % 256
            &&& r->Ok_0.v[FLAG_REGISTER as int] == m.v[FLAG_REGISTER as int]
        }),
{
    reveal(spec_execute);
}

/// The flagged add (8xy4) wraps modulo 256 and sets VF to 1 exactly when
/// the unwrapped sum exceeds 255 (the destination register is not VF
/// here; when it is, the wrapped sum overwrites the flag).
pub proof fn lemma_add_carry_flag(m: MachineView, x: u8, y: u8)
    requires
        wf_view(m),
        x < FLAG_REGISTER,
        y < NUM_REGISTERS,
    ensures
        ({
            let r = spec_execute(
                Instruction::AddF { dst: Operand::VReg(x), src: Operand::VReg(y) },
                m,
            );
            &&& r is Ok
            &&& r->Ok_0.v[x as int] == (m.v[x as int] + m.v[y as int]) % 256
            &&& r->Ok_0.v[FLAG_REGISTER as int] == (if m.v[x as int] + m.v[y as int] > 255 {
                1u8
            } else {
                0u8
            })
        }),
{
    reveal(spec_execute);
}

/// Subtraction (8xy5) sets VF to 1 exactly when the minuend is at least
/// the subtrahend before the operation (the not-borrow convention), and
/// the difference wraps modulo 256.
pub proof fn lemma_sub_not_borrow(m: MachineView, x: u8, y: u8)
    requires
        wf_view(m),
        x < FLAG_REGISTER,
        y < NUM_REGISTERS,
    ensures
        ({
            let r = spec_execute(
                Instruction::Sub { dst: Operand::VReg(x), src: Operand::VReg(y) },
                m,
            );
            &&& r is Ok
            &&& r->Ok_0.v[x as int] == (m.v[x as int] - m.v[y as int]) % 256
            &&& r->Ok_0.v[FLAG_REGISTER as int] == (if m.v[x as int] >= m.v[y as int] {
                1u8
            } else {
                0u8
            })
        }),
{
    reveal(spec_execute);
}

/// The reversed subtraction (8xy7) follows the same not-borrow
/// convention with the roles of the operands swapped.
pub proof fn lemma_subn_not_borrow(m: MachineView, x: u8, y: u8)
    requires
        wf_view(m),
        x < FLAG_REGISTER,
        y < NUM_REGISTERS,
    ensures
        ({
            let r = spec_execute(
                Instruction::Subn { dst: Operand::VReg(x), src: Operand::VReg(y) },
                m,
            );
            &&& r is Ok
            &&& r->Ok_0.v[x as int] == (m.v[y as int] - m.v[x as int]) % 256
            &&& r->Ok_0.v[FLAG_REGISTER as int] == (if m.v[y as int] >= m.v[x as int] {
                1u8
            } else {
                0u8
            })
        }),
{
    reveal(spec_execute);
}

/// The shifts capture the bit they shift out into VF before shifting:
/// the pre-shift low bit for SHR, the pre-shift high bit for SHL.
pub proof fn lemma_shift_flags(m: MachineView, x: u8)
    requires
        wf_view(m),
        x < FLAG_REGISTER,
    ensures
        ({
            let r = spec_execute(Instruction::Shr { dst: Operand::VReg(x) }, m);
            &&& r is Ok
            &&& r->Ok_0.v[x as int] == m.v[x as int] / 2
            &&& r->Ok_0.v[FLAG_REGISTER as int] == m.v[x as int] % 2
        }),
        ({
            let r = spec_execute(Instruction::Shl { dst: Operand::VReg(x) }, m);
            &&& r is Ok
            &&& r->Ok_0.v[x as int] == (m.v[x as int] * 2) % 256
            &&& r->Ok_0.v[FLAG_REGISTER as int] == m.v[x as int] / 128
        }),
{
    reveal(spec_execute);
}

/// A CALL followed by a RET restores the program counter to exactly its
/// pre-CALL value and the stack to exactly its pre-CALL contents; both
/// succeed whenever the stack has a free slot for the call.
pub proof fn lemma_call_then_ret(m: MachineView, a: u16)
    requires
        wf_view(m),
        a < MAX_SIZE,
        m.stack.len() < STACK_SIZE,
    ensures
        ({
            let r1 = spec_execute(Instruction::Call(a), m);
            &&& r1 is Ok
            &&& r1->Ok_0.pc == a
            &&& ({
                let r2 = spec_execute(Instruction::Ret, r1->Ok_0);
                &&& r2 is Ok
                &&& r2->Ok_0.pc == m.pc
                &&& r2->Ok_0.stack == m.stack
            })
        }),
{
    reveal(spec_execute);
    let m1 = spec_execute(Instruction::Call(a), m)->Ok_0;
    assert(m1.stack.last() == m.pc);
    assert(m1.stack.drop_last() =~= m.stack);
}

} // verus!
