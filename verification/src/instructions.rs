//! The 35-instruction set and its decoder.
//!
//! The decoder is a pure function from a two-byte instruction word to an
//! instruction value: the first nibble selects a family, the remaining
//! nibbles either parameterize operands or select a sub-operation by
//! exact match. A word that matches no pattern fails with an error
//! carrying the offending bytes — never a silent no-op.

use vstd::prelude::*;

use crate::memory::MAX_SIZE;
use crate::operand::Operand;
use crate::variables::{B12, B4, B8};

verus! {

/// Error for an instruction word that matches no instruction pattern; it
/// carries the offending pair of bytes.
#[derive(Debug, Clone, Copy, PartialEq, Eq, Structural)]
pub struct InstructionError(pub u8, pub u8);

/// One decoded instruction: what to do, not yet executed. The 35 opcodes
/// of the instruction set map onto these kinds; one kind covers several
/// opcodes where they differ only in their operands (the loads, the adds,
/// the skips on equality).
#[derive(Debug, Clone, Copy, PartialEq, Eq, Structural)]
pub enum Instruction {
    /// 00E0: clear the display.
    Cls,
    /// 00EE: return from a subroutine; the program counter is popped off
    /// the stack. Fatal if the stack is empty.
    Ret,
    /// 0nnn: jump to the machine routine at nnn, treated as an
    /// unconditional jump.
    Sys(u16),
    /// 1nnn and Bnnn: jump to addr plus the value of `base` (the literal
    /// zero for 1nnn, register V0 for Bnnn).
    Jp { base: Operand, addr: u16 },
    /// 2nnn: push the program counter and jump to nnn. Fatal if the
    /// stack is full.
    Call(u16),
    /// 3xkk and 5xy0: skip the next instruction if the operands are
    /// equal.
    Se { left: Operand, right: Operand },
    /// 4xkk and 9xy0: skip the next instruction if the operands differ.
    Sne { left: Operand, right: Operand },
    /// The load family (6xkk, 8xy0, Annn, Fx07, Fx0A, Fx15, Fx18, Fx29,
    /// Fx33, Fx55, Fx65): store what `src` reads into `dst`.
    Ld { dst: Operand, src: Operand },
    /// 7xkk and Fx1E: add `src` to `dst`, wrapping at the width of the
    /// destination; no flag is set.
    Add { dst: Operand, src: Operand },
    /// 8xy4: add with carry flag; VF becomes 1 exactly when the unwrapped
    /// sum exceeds 255.
    AddF { dst: Operand, src: Operand },
    /// 8xy1: bitwise or.
    Or { dst: Operand, src: Operand },
    /// 8xy2: bitwise and.
    And { dst: Operand, src: Operand },
    /// 8xy3: bitwise exclusive or.
    Xor { dst: Operand, src: Operand },
    /// 8xy5: dst minus src, wrapping; VF becomes 1 exactly when the
    /// minuend was at least the subtrahend (the not-borrow convention).
    Sub { dst: Operand, src: Operand },
    /// 8xy7: src minus dst stored into dst, wrapping; VF as for Sub with
    /// the roles swapped.
    Subn { dst: Operand, src: Operand },
    /// 8xy6: shift right by one; VF captures the bit shifted out (the
    /// pre-shift low bit).
    Shr { dst: Operand },
    /// 8xyE: shift left by one, wrapping; VF captures the pre-shift high
    /// bit.
    Shl { dst: Operand },
    /// Cxkk: a fresh random byte ANDed with the mask.
    Rnd { dst: Operand, mask: Operand },
    /// Dxyn: draw the n-byte sprite at address I onto (x, y) by XOR with
    /// wraparound; VF becomes 1 exactly when a pixel went from set to
    /// unset.
    Drw { x: Operand, y: Operand, n: Operand },
    /// Ex9E: skip the next instruction if the key numbered by the operand
    /// is held.
    Skp { key: Operand },
    /// ExA1: skip the next instruction if that key is not held.
    Sknp { key: Operand },
}

/// An operand serving as a scalar source: readable, one value.
pub open spec fn scalar_src(op: Operand) -> bool {
    &&& op.wf()
    &&& op.readable()
    &&& op.read_len() == 1
}

/// An operand serving as a scalar read-modify-write destination.
pub open spec fn scalar_dst(op: Operand) -> bool {
    &&& op.wf()
    &&& op.writable()
    &&& op.readable()
    &&& op.read_len() == 1
}

impl Instruction {
    /// Well-formedness of a decoded instruction: operands are well-formed
    /// and have the shapes their instruction expects. Every instruction
    /// the decoder yields satisfies this.
    pub open spec fn wf(&self) -> bool {
        match *self {
            Instruction::Cls => true,
            Instruction::Ret => true,
            Instruction::Sys(a) => a < MAX_SIZE,
            Instruction::Jp { base, addr } => scalar_src(base) && addr < MAX_SIZE,
            Instruction::Call(a) => a < MAX_SIZE,
            Instruction::Se { left, right } => scalar_src(left) && scalar_src(right),
            Instruction::Sne { left, right } => scalar_src(left) && scalar_src(right),
            Instruction::Ld { dst, src } => {
                &&& dst.wf()
                &&& dst.writable()
                &&& src.wf()
                &&& (src is KeyWait || src.readable())
            },
            Instruction::Add { dst, src } => scalar_dst(dst) && scalar_src(src),
            Instruction::AddF { dst, src } => {
                &&& dst matches Operand::VReg(x) && x < 16
                &&& scalar_src(src)
            },
            Instruction::Or { dst, src } => scalar_dst(dst) && scalar_src(src),
            Instruction::And { dst, src } => scalar_dst(dst) && scalar_src(src),
            Instruction::Xor { dst, src } => scalar_dst(dst) && scalar_src(src),
            Instruction::Sub { dst, src } => {
                &&& dst matches Operand::VReg(x) && x < 16
                &&& scalar_src(src)
            },
            Instruction::Subn { dst, src } => {
                &&& dst matches Operand::VReg(x) && x < 16
                &&& scalar_src(src)
            },
            Instruction::Shr { dst } => dst matches Operand::VReg(x) && x < 16,
            Instruction::Shl { dst } => dst matches Operand::VReg(x) && x < 16,
            Instruction::Rnd { dst, mask } => {
                &&& dst.wf()
                &&& dst.writable()
                &&& scalar_src(mask)
            },
            Instruction::Drw { x, y, n } => {
                &&& scalar_src(x)
                &&& scalar_src(y)
                &&& (n matches Operand::Literal(v) && v < 16)
            },
            Instruction::Skp { key } => scalar_src(key),
            Instruction::Sknp { key } => scalar_src(key),
        }
    }

    /// Whether this instruction assigns the program counter its final
    /// value itself. The execution loop must not apply its normal
    /// advance to these.
    pub open spec fn is_control_transfer(&self) -> bool {
        match *self {
            Instruction::Sys(_) => true,
            Instruction::Jp { .. } => true,
            Instruction::Call(_) => true,
            Instruction::Ret => true,
            _ => false,
        }
    }

    /// Whether the effect of this instruction is a function of the
    /// machine state alone: everything but the random byte of Rnd, the
    /// key polls of Skp and Sknp, and the blocking key read.
    pub open spec fn deterministic(&self) -> bool {
        match *self {
            Instruction::Rnd { .. } => false,
            Instruction::Skp { .. } => false,
            Instruction::Sknp { .. } => false,
            Instruction::Ld { src, .. } => !(src is KeyWait),
            _ => true,
        }
    }
}

/// What the decoder yields for the instruction word (b0, b1), nibble by
/// nibble: n1 selects the family, the rest parameterize it.
#[verifier::opaque]
pub open spec fn spec_parse(b0: u8, b1: u8) -> Result<Instruction, InstructionError> {
    let n1 = b0 / 16;
    let n2 = b0 % 16;
    let n3 = b1 / 16;
    let n4 = b1 % 16;
    let nnn = (n2 * 256 + b1) as u16;
    if b0 == 0x00 && b1 == 0xE0 {
        Ok(Instruction::Cls)
    } else if b0 == 0x00 && b1 == 0xEE {
        Ok(Instruction::Ret)
    } else if n1 == 0x0 {
        Ok(Instruction::Sys(nnn))
    } else if n1 == 0x1 {
        Ok(Instruction::Jp { base: Operand::Literal(0), addr: nnn })
    } else if n1 == 0x2 {
        Ok(Instruction::Call(nnn))
    } else if n1 == 0x3 {
        Ok(Instruction::Se { left: Operand::VReg(n2), right: Operand::Literal(b1 as u16) })
    } else if n1 == 0x4 {
        Ok(Instruction::Sne { left: Operand::VReg(n2), right: Operand::Literal(b1 as u16) })
    } else if n1 == 0x5 && n4 == 0x0 {
        Ok(Instruction::Se { left: Operand::VReg(n2), right: Operand::VReg(n3) })
    } else if n1 == 0x6 {
        Ok(Instruction::Ld { dst: Operand::VReg(n2), src: Operand::Literal(b1 as u16) })
    } else if n1 == 0x7 {
        Ok(Instruction::Add { dst: Operand::VReg(n2), src: Operand::Literal(b1 as u16) })
    } else if n1 == 0x8 && n4 == 0x0 {
        Ok(Instruction::Ld { dst: Operand::VReg(n2), src: Operand::VReg(n3) })
    } else if n1 == 0x8 && n4 == 0x1 {
        Ok(Instruction::Or { dst: Operand::VReg(n2), src: Operand::VReg(n3) })
    } else if n1 == 0x8 && n4 == 0x2 {
        Ok(Instruction::And { dst: Operand::VReg(n2), src: Operand::VReg(n3) })
    } else if n1 == 0x8 && n4 == 0x3 {
        Ok(Instruction::Xor { dst: Operand::VReg(n2), src: Operand::VReg(n3) })
    } else if n1 == 0x8 && n4 == 0x4 {
        Ok(Instruction::AddF { dst: Operand::VReg(n2), src: Operand::VReg(n3) })
    } else if n1 == 0x8 && n4 == 0x5 {
        Ok(Instruction::Sub { dst: Operand::VReg(n2), src: Operand::VReg(n3) })
    } else if n1 == 0x8 && n4 == 0x6 {
        Ok(Instruction::Shr { dst: Operand::VReg(n2) })
    } else if n1 == 0x8 && n4 == 0x7 {
        Ok(Instruction::Subn { dst: Operand::VReg(n2), src: Operand::VReg(n3) })
    } else if n1 == 0x8 && n4 == 0xE {
        Ok(Instruction::Shl { dst: Operand::VReg(n2) })
    } else if n1 == 0x9 && n4 == 0x0 {
        Ok(Instruction::Sne { left: Operand::VReg(n2), right: Operand::VReg(n3) })
    } else if n1 == 0xA {
        Ok(Instruction::Ld { dst: Operand::IndexReg, src: Operand::Literal(nnn) })
    } else if n1 == 0xB {
        Ok(Instruction::Jp { base: Operand::VReg(0), addr: nnn })
    } else if n1 == 0xC {
        Ok(Instruction::Rnd { dst: Operand::VReg(n2), mask: Operand::Literal(b1 as u16) })
    } else if n1 == 0xD {
        Ok(
            Instruction::Drw {
                x: Operand::VReg(n2),
                y: Operand::VReg(n3),
                n: Operand::Literal(n4 as u16),
            },
        )
    } else if n1 == 0xE && b1 == 0x9E {
        Ok(Instruction::Skp { key: Operand::VReg(n2) })
    } else if n1 == 0xE && b1 == 0xA1 {
        Ok(Instruction::Sknp { key: Operand::VReg(n2) })
    } else if n1 == 0xF && b1 == 0x07 {
        Ok(Instruction::Ld { dst: Operand::VReg(n2), src: Operand::DelayTimer })
    } else if n1 == 0xF && b1 == 0x0A {
        Ok(Instruction::Ld { dst: Operand::VReg(n2), src: Operand::KeyWait })
    } else if n1 == 0xF && b1 == 0x15 {
        Ok(Instruction::Ld { dst: Operand::DelayTimer, src: Operand::VReg(n2) })
    } else if n1 == 0xF && b1 == 0x18 {
        Ok(Instruction::Ld { dst: Operand::SoundTimer, src: Operand::VReg(n2) })
    } else if n1 == 0xF && b1 == 0x1E {
        Ok(Instruction::Add { dst: Operand::IndexReg, src: Operand::VReg(n2) })
    } else if n1 == 0xF && b1 == 0x29 {
        Ok(Instruction::Ld { dst: Operand::IndexReg, src: Operand::FontAddr(n2) })
    } else if n1 == 0xF && b1 == 0x33 {
        Ok(Instruction::Ld { dst: Operand::MemSpan(2), src: Operand::BcdDigits(n2) })
    } else if n1 == 0xF && b1 == 0x55 {
        Ok(Instruction::Ld { dst: Operand::MemSpan(n2), src: Operand::VRegSpan(n2) })
    } else if n1 == 0xF && b1 == 0x65 {
        Ok(Instruction::Ld { dst: Operand::VRegSpan(n2), src: Operand::MemSpan(n2) })
    } else {
        Err(InstructionError(b0, b1))
    }
}

/// Decodes a raw two-byte instruction word into an instruction value.
/// Pure: no state is read and none is mutated.
pub fn parse(instruction: (u8, u8)) -> (r: Result<Instruction, InstructionError>)
    ensures
        r == spec_parse(instruction.0, instruction.1),
{
    proof {
        reveal(spec_parse);
    }
    let (first, second) = B4::from_u8(instruction.0);
    let (third, fourth) = B4::from_u8(instruction.1);
    match (first, second, third, fourth) {
        (B4(0x0), B4(0x0), B4(0xE), B4(0x0)) => Ok(Instruction::Cls),
        (B4(0x0), B4(0x0), B4(0xE), B4(0xE)) => Ok(Instruction::Ret),
        (B4(0x0), _, _, _) => Ok(Instruction::Sys(B12(second, third, fourth).value())),
        (B4(0x1), _, _, _) => Ok(
            Instruction::Jp {
                base: Operand::Literal(0),
                addr: B12(second, third, fourth).value(),
            },
        ),
        (B4(0x2), _, _, _) => Ok(Instruction::Call(B12(second, third, fourth).value())),
        (B4(0x3), _, _, _) => Ok(
            Instruction::Se {
                left: Operand::VReg(second.0),
                right: Operand::Literal(B8(third, fourth).value() as u16),
            },
        ),
        (B4(0x4), _, _, _) => Ok(
            Instruction::Sne {
                left: Operand::VReg(second.0),
                right: Operand::Literal(B8(third, fourth).value() as u16),
            },
        ),
        (B4(0x5), _, _, B4(0x0)) => Ok(
            Instruction::Se { left: Operand::VReg(second.0), right: Operand::VReg(third.0) },
        ),
        (B4(0x6), _, _, _) => Ok(
            Instruction::Ld {
                dst: Operand::VReg(second.0),
                src: Operand::Literal(B8(third, fourth).value() as u16),
            },
        ),
        (B4(0x7), _, _, _) => Ok(
            Instruction::Add {
                dst: Operand::VReg(second.0),
                src: Operand::Literal(B8(third, fourth).value() as u16),
            },
        ),
        (B4(0x8), _, _, B4(0x0)) => Ok(
            Instruction::Ld { dst: Operand::VReg(second.0), src: Operand::VReg(third.0) },
        ),
        (B4(0x8), _, _, B4(0x1)) => Ok(
            Instruction::Or { dst: Operand::VReg(second.0), src: Operand::VReg(third.0) },
        ),
        (B4(0x8), _, _, B4(0x2)) => Ok(
            Instruction::And { dst: Operand::VReg(second.0), src: Operand::VReg(third.0) },
        ),
        (B4(0x8), _, _, B4(0x3)) => Ok(
            Instruction::Xor { dst: Operand::VReg(second.0), src: Operand::VReg(third.0) },
        ),
        (B4(0x8), _, _, B4(0x4)) => Ok(
            Instruction::AddF { dst: Operand::VReg(second.0), src: Operand::VReg(third.0) },
        ),
        (B4(0x8), _, _, B4(0x5)) => Ok(
            Instruction::Sub { dst: Operand::VReg(second.0), src: Operand::VReg(third.0) },
        ),
        (B4(0x8), _, _, B4(0x6)) => Ok(Instruction::Shr { dst: Operand::VReg(second.0) }),
        (B4(0x8), _, _, B4(0x7)) => Ok(
            Instruction::Subn { dst: Operand::VReg(second.0), src: Operand::VReg(third.0) },
        ),
        (B4(0x8), _, _, B4(0xE)) => Ok(Instruction::Shl { dst: Operand::VReg(second.0) }),
        (B4(0x9), _, _, B4(0x0)) => Ok(
            Instruction::Sne { left: Operand::VReg(second.0), right: Operand::VReg(third.0) },
        ),
        (B4(0xA), _, _, _) => Ok(
            Instruction::Ld {
                dst: Operand::IndexReg,
                src: Operand::Literal(B12(second, third, fourth).value()),
            },
        ),
        (B4(0xB), _, _, _) => Ok(
            Instruction::Jp { base: Operand::VReg(0), addr: B12(second, third, fourth).value() },
        ),
        (B4(0xC), _, _, _) => Ok(
            Instruction::Rnd {
                dst: Operand::VReg(second.0),
                mask: Operand::Literal(B8(third, fourth).value() as u16),
            },
        ),
        (B4(0xD), _, _, _) => Ok(
            Instruction::Drw {
                x: Operand::VReg(second.0),
                y: Operand::VReg(third.0),
                n: Operand::Literal(fourth.0 as u16),
            },
        ),
        (B4(0xE), _, B4(0x9), B4(0xE)) => Ok(Instruction::Skp { key: Operand::VReg(second.0) }),
        (B4(0xE), _, B4(0xA), B4(0x1)) => Ok(Instruction::Sknp { key: Operand::VReg(second.0) }),
        (B4(0xF), _, B4(0x0), B4(0x7)) => Ok(
            Instruction::Ld { dst: Operand::VReg(second.0), src: Operand::DelayTimer },
        ),
        (B4(0xF), _, B4(0x0), B4(0xA)) => Ok(
            Instruction::Ld { dst: Operand::VReg(second.0), src: Operand::KeyWait },
        ),
        (B4(0xF), _, B4(0x1), B4(0x5)) => Ok(
            Instruction::Ld { dst: Operand::DelayTimer, src: Operand::VReg(second.0) },
        ),
        (B4(0xF), _, B4(0x1), B4(0x8)) => Ok(
            Instruction::Ld { dst: Operand::SoundTimer, src: Operand::VReg(second.0) },
        ),
        (B4(0xF), _, B4(0x1), B4(0xE)) => Ok(
            Instruction::Add { dst: Operand::IndexReg, src: Operand::VReg(second.0) },
        ),
        (B4(0xF), _, B4(0x2), B4(0x9)) => Ok(
            Instruction::Ld { dst: Operand::IndexReg, src: Operand::FontAddr(second.0) },
        ),
        (B4(0xF), _, B4(0x3), B4(0x3)) => Ok(
            Instruction::Ld { dst: Operand::MemSpan(2), src: Operand::BcdDigits(second.0) },
        ),
        (B4(0xF), _, B4(0x5), B4(0x5)) => Ok(
            Instruction::Ld {
                dst: Operand::MemSpan(second.0),
                src: Operand::VRegSpan(second.0),
            },
        ),
        (B4(0xF), _, B4(0x6), B4(0x5)) => Ok(
            Instruction::Ld {
                dst: Operand::VRegSpan(second.0),
                src: Operand::MemSpan(second.0),
            },
        ),
        _ => Err(InstructionError(instruction.0, instruction.1)),
    }
}

/// Decoding is total and unambiguous: every one of the 65536 possible
/// instruction words either yields exactly one well-formed instruction
/// (the decoder is a function, so the result is unique) or fails with a
/// decode error carrying exactly the offending bytes — no word is
/// silently mis-decoded.
pub proof fn lemma_decode_total(b0: u8, b1: u8)
    ensures
        match spec_parse(b0, b1) {
            Ok(i) => i.wf(),
            Err(e) => e == InstructionError(b0, b1),
        },
{
    reveal(spec_parse);
}

} // verus!
