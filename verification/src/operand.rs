//! The operand abstraction: every instruction reads and writes machine
//! state through a small closed set of operand kinds with one uniform
//! read/write interface.
//!
//! A read produces an ordered sequence of values (a single value for the
//! scalar kinds, three digits for BCD, one value per cell for the
//! composite spans); a write stores a sequence, and a source shorter than
//! the destination span fills only the overlapping prefix. The blocking
//! key-read operand is the one operand the uniform reader does not serve:
//! it suspends the machine, so the executor handles it against the
//! [`crate::keyboard::Keyboard`] capability directly.

use vstd::prelude::*;

use crate::fault::Fault;
use crate::memory::MAX_SIZE;
use crate::registers::NUM_REGISTERS;
use crate::state::{wf_view, MachineView, State};

verus! {

/// The smaller of two integers.
pub open spec fn spec_min(a: int, b: int) -> int {
    if a < b {
        a
    } else {
        b
    }
}

/// One operand of an instruction: a location in (or a value derived from)
/// the machine state that can be read, and for most kinds written.
#[derive(Debug, Clone, Copy, PartialEq, Eq, Structural)]
pub enum Operand {
    /// An immediate constant decoded from the instruction word (4, 8 or
    /// 12 bits wide, so always below 4096).
    Literal(u16),
    /// General register Vx.
    VReg(u8),
    /// The index register I.
    IndexReg,
    /// The memory cell at address I plus a fixed offset.
    MemCell(u16),
    /// The delay timer.
    DelayTimer,
    /// The sound timer.
    SoundTimer,
    /// The font sprite address for the hex digit held in Vx: its value
    /// times five, the size of one font sprite.
    FontAddr(u8),
    /// The three decimal digits of Vx: hundreds, tens, ones.
    BcdDigits(u8),
    /// The blocking key read: suspends until a key is pressed and
    /// produces its logical number.
    KeyWait,
    /// The composite sequence of registers V0 through Vx inclusive.
    VRegSpan(u8),
    /// The composite sequence of memory cells I through I+x inclusive.
    MemSpan(u8),
}

impl Operand {
    /// Register indices and span ends are nibbles; literals and offsets
    /// fit in 12 bits.
    pub open spec fn wf(&self) -> bool {
        match *self {
            Operand::Literal(v) => v < MAX_SIZE,
            Operand::VReg(x) => x < NUM_REGISTERS,
            Operand::IndexReg => true,
            Operand::MemCell(off) => off < MAX_SIZE,
            Operand::DelayTimer => true,
            Operand::SoundTimer => true,
            Operand::FontAddr(x) => x < NUM_REGISTERS,
            Operand::BcdDigits(x) => x < NUM_REGISTERS,
            Operand::KeyWait => true,
            Operand::VRegSpan(n) => n < NUM_REGISTERS,
            Operand::MemSpan(n) => n < NUM_REGISTERS,
        }
    }

    /// Whether the uniform reader serves this operand. Only the blocking
    /// key read is excluded: it suspends the machine instead of reading
    /// state.
    pub open spec fn readable(&self) -> bool {
        !(*self is KeyWait)
    }

    /// Whether this operand denotes a writable location.
    pub open spec fn writable(&self) -> bool {
        match *self {
            Operand::VReg(_) => true,
            Operand::IndexReg => true,
            Operand::MemCell(_) => true,
            Operand::DelayTimer => true,
            Operand::SoundTimer => true,
            Operand::VRegSpan(_) => true,
            Operand::MemSpan(_) => true,
            _ => false,
        }
    }

    /// How many values a read of this operand produces.
    pub open spec fn read_len(&self) -> nat {
        match *self {
            Operand::BcdDigits(_) => 3,
            Operand::VRegSpan(n) => (n + 1) as nat,
            Operand::MemSpan(n) => (n + 1) as nat,
            _ => 1,
        }
    }
}

/// Whether every memory address a read of `op` touches lies inside
/// memory. Reads of anything but a memory cell cannot go out of bounds.
pub open spec fn read_ok(op: Operand, m: MachineView) -> bool {
    match op {
        Operand::MemCell(off) => m.i + off < MAX_SIZE,
        Operand::MemSpan(n) => m.i + n < MAX_SIZE,
        _ => true,
    }
}

/// The sequence of values a read of `op` produces.
pub open spec fn spec_read(op: Operand, m: MachineView) -> Seq<u16>
    recommends
        op.wf(),
        op.readable(),
        wf_view(m),
        read_ok(op, m),
{
    match op {
        Operand::Literal(v) => seq![v],
        Operand::VReg(x) => seq![m.v[x as int] as u16],
        Operand::IndexReg => seq![m.i],
        Operand::MemCell(off) => seq![m.mem[m.i + off] as u16],
        Operand::DelayTimer => seq![m.dt as u16],
        Operand::SoundTimer => seq![m.st as u16],
        Operand::FontAddr(x) => seq![(m.v[x as int] * 5) as u16],
        Operand::BcdDigits(x) => seq![
            (m.v[x as int] / 100) as u16,
            ((m.v[x as int] / 10) % 10) as u16,
            (m.v[x as int] % 10) as u16,
        ],
        Operand::KeyWait => Seq::empty(),
        Operand::VRegSpan(n) => Seq::new((n + 1) as nat, |k: int| m.v[k] as u16),
        Operand::MemSpan(n) => Seq::new((n + 1) as nat, |k: int| m.mem[m.i + k] as u16),
    }
}

/// Whether every memory address a write of `len` values to `op` touches
/// lies inside memory.
pub open spec fn write_ok(op: Operand, m: MachineView, len: nat) -> bool {
    match op {
        Operand::MemCell(off) => m.i + off < MAX_SIZE,
        Operand::MemSpan(n) => m.i + spec_min(n + 1, len as int) <= MAX_SIZE,
        _ => true,
    }
}

/// The machine after writing the sequence `vals` to `op`. A scalar
/// operand stores the first value; a span stores the overlapping prefix
/// of `vals`, values truncated to the width of the destination.
pub open spec fn spec_write(op: Operand, m: MachineView, vals: Seq<u16>) -> MachineView
    recommends
        op.wf(),
        op.writable(),
        wf_view(m),
        vals.len() >= 1,
        write_ok(op, m, vals.len()),
{
    match op {
        Operand::VReg(x) => MachineView { v: m.v.update(x as int, vals[0] as u8), ..m },
        Operand::IndexReg => MachineView { i: vals[0], ..m },
        Operand::MemCell(off) => MachineView {
            mem: m.mem.update(m.i + off, vals[0] as u8),
            ..m
        },
        Operand::DelayTimer => MachineView { dt: vals[0] as u8, ..m },
        Operand::SoundTimer => MachineView { st: vals[0] as u8, ..m },
        Operand::VRegSpan(n) => {
            let cnt = spec_min(n + 1, vals.len() as int);
            MachineView {
                v: Seq::new(
                    m.v.len(),
                    |r: int|
                        if 0 <= r < cnt {
                            vals[r] as u8
                        } else {
                            m.v[r]
                        },
                ),
                ..m
            }
        },
        Operand::MemSpan(n) => {
            let cnt = spec_min(n + 1, vals.len() as int);
            MachineView {
                mem: Seq::new(
                    m.mem.len(),
                    |a: int|
                        if m.i <= a < m.i + cnt {
                            vals[a - m.i] as u8
                        } else {
                            m.mem[a]
                        },
                ),
                ..m
            }
        },
        _ => m,
    }
}

/// Reads an operand from the machine state: the uniform realization of
/// the read capability for every operand kind but the blocking key read.
pub fn read_value(op: &Operand, s: &State) -> (r: Result<Vec<u16>, Fault>)
    requires
        s.wf(),
        op.wf(),
        op.readable(),
    ensures
        match r {
            Ok(vals) => {
                &&& read_ok(*op, s@)
                &&& vals@ == spec_read(*op, s@)
                &&& vals@.len() == op.read_len()
            },
            Err(f) => {
                &&& !read_ok(*op, s@)
                &&& f == Fault::MemoryOutOfBounds
            },
        },
{
    let mut out: Vec<u16> = Vec::new();
    match op {
        Operand::Literal(v) => {
            out.push(*v);
        },
        Operand::VReg(x) => {
            out.push(s.registers.v_registers[*x as usize] as u16);
        },
        Operand::IndexReg => {
            out.push(s.registers.i_register);
        },
        Operand::MemCell(off) => {
            let addr = s.registers.i_register as usize + *off as usize;
            if addr >= MAX_SIZE {
                return Err(Fault::MemoryOutOfBounds);
            }
            out.push(s.memory.read_byte(addr) as u16);
        },
        Operand::DelayTimer => {
            out.push(s.timers.delay_timer as u16);
        },
        Operand::SoundTimer => {
            out.push(s.timers.sound_timer as u16);
        },
        Operand::FontAddr(x) => {
            out.push(s.registers.v_registers[*x as usize] as u16 * 5);
        },
        Operand::BcdDigits(x) => {
            let val = s.registers.v_registers[*x as usize];
            out.push((val / 100) as u16);
            out.push(((val / 10) % 10) as u16);
            out.push((val % 10) as u16);
        },
        Operand::KeyWait => {
            return unreached();
        },
        Operand::VRegSpan(n) => {
            let cnt = *n as usize + 1;
            let mut k: usize = 0;
            while k < cnt
                invariant
                    k <= cnt,
                    cnt <= NUM_REGISTERS,
                    s.wf(),
                    out@.len() == k,
                    forall|j: int| 0 <= j < k ==> out@[j] == s@.v[j] as u16,
                decreases cnt - k,
            {
                out.push(s.registers.v_registers[k] as u16);
                k = k + 1;
            }
        },
        Operand::MemSpan(n) => {
            let cnt = *n as usize + 1;
            let base = s.registers.i_register as usize;
            if base + *n as usize >= MAX_SIZE {
                return Err(Fault::MemoryOutOfBounds);
            }
            let mut k: usize = 0;
            while k < cnt
                invariant
                    k <= cnt,
                    cnt <= NUM_REGISTERS,
                    base == s@.i,
                    base + cnt <= MAX_SIZE,
                    s.wf(),
                    out@.len() == k,
                    forall|j: int| 0 <= j < k ==> out@[j] == s@.mem[base + j] as u16,
                decreases cnt - k,
            {
                out.push(s.memory.read_byte(base + k) as u16);
                k = k + 1;
            }
        },
    }
    proof {
        assert(out@ =~= spec_read(*op, s@));
    }
    Ok(out)
}

/// Writes a sequence of values to an operand: the uniform realization of
/// the write capability. A source shorter than a destination span fills
/// only the overlapping prefix; an out-of-bounds memory address is fatal
/// and leaves the state unchanged.
pub fn write_value(op: &Operand, s: &mut State, vals: &Vec<u16>) -> (r: Result<(), Fault>)
    requires
        old(s).wf(),
        op.wf(),
        op.writable(),
        vals@.len() >= 1,
    ensures
        final(s).wf(),
        match r {
            Ok(()) => {
                &&& write_ok(*op, old(s)@, vals@.len())
                &&& final(s)@ == spec_write(*op, old(s)@, vals@)
            },
            Err(f) => {
                &&& !write_ok(*op, old(s)@, vals@.len())
                &&& f == Fault::MemoryOutOfBounds
                &&& final(s)@ == old(s)@
            },
        },
{
    match op {
        Operand::VReg(x) => {
            set_register(s, *x as usize, vals[0]);
        },
        Operand::IndexReg => {
            s.registers.i_register = vals[0];
        },
        Operand::MemCell(off) => {
            let addr = s.registers.i_register as usize + *off as usize;
            if addr >= MAX_SIZE {
                return Err(Fault::MemoryOutOfBounds);
            }
            s.memory.write_byte(addr, vals[0] as u8);
        },
        Operand::DelayTimer => {
            s.timers.delay_timer = vals[0] as u8;
        },
        Operand::SoundTimer => {
            s.timers.sound_timer = vals[0] as u8;
        },
        Operand::VRegSpan(n) => {
            let cnt = if (*n as usize) + 1 < vals.len() {
                *n as usize + 1
            } else {
                vals.len()
            };
            let mut k: usize = 0;
            while k < cnt
                invariant
                    k <= cnt,
                    cnt <= NUM_REGISTERS,
                    cnt <= vals@.len(),
                    s.wf(),
                    s@.mem == old(s)@.mem,
                    s@.i == old(s)@.i,
                    s@.dt == old(s)@.dt,
                    s@.st == old(s)@.st,
                    s@.stack == old(s)@.stack,
                    s@.pc == old(s)@.pc,
                    s@.pixels == old(s)@.pixels,
                    s@.events == old(s)@.events,
                    s@.v.len() == NUM_REGISTERS,
                    forall|r: int| 0 <= r < k ==> s@.v[r] == vals@[r] as u8,
                    forall|r: int| k <= r < NUM_REGISTERS ==> s@.v[r] == old(s)@.v[r],
                decreases cnt - k,
            {
                set_register(s, k, vals[k]);
                k = k + 1;
            }
        },
        Operand::MemSpan(n) => {
            let cnt = if (*n as usize) + 1 < vals.len() {
                *n as usize + 1
            } else {
                vals.len()
            };
            let base = s.registers.i_register as usize;
            if base + cnt > MAX_SIZE {
                return Err(Fault::MemoryOutOfBounds);
            }
            let mut k: usize = 0;
            while k < cnt
                invariant
                    k <= cnt,
                    cnt <= vals@.len(),
                    base == s@.i,
                    base + cnt <= MAX_SIZE,
                    s.wf(),
                    s@.v == old(s)@.v,
                    s@.i == old(s)@.i,
                    s@.dt == old(s)@.dt,
                    s@.st == old(s)@.st,
                    s@.stack == old(s)@.stack,
                    s@.pc == old(s)@.pc,
                    s@.pixels == old(s)@.pixels,
                    s@.events == old(s)@.events,
                    s@.mem.len() == MAX_SIZE,
                    forall|a: int| base <= a < base + k ==> s@.mem[a] == vals@[a - base] as u8,
                    forall|a: int|
                        0 <= a < MAX_SIZE && !(base <= a < base + k) ==> s@.mem[a] == old(
                            s,
                        )@.mem[a],
                decreases cnt - k,
            {
                s.memory.write_byte(base + k, vals[k] as u8);
                k = k + 1;
            }
        },
        _ => {
            return unreached();
        },
    }
    proof {
        assert(s@ =~= spec_write(*op, old(s)@, vals@));
    }
    Ok(())
}

/// Stores the low byte of `val` in register `x`.
fn set_register(s: &mut State, x: usize, val: u16)
    requires
        old(s).wf(),
        x < NUM_REGISTERS,
    ensures
        final(s).wf(),
        final(s)@ == (MachineView { v: old(s)@.v.update(x as int, val as u8), ..old(s)@ }),
{
    s.registers.v_registers.set(x, val as u8);
    proof {
        assert(s@ =~= (MachineView { v: old(s)@.v.update(x as int, val as u8), ..old(s)@ }));
    }
}

} // verus!
