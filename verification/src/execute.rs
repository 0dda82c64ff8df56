//! Execution of decoded instructions against the machine state.
//!
//! Every instruction's effect is specified over [`MachineView`]. For the
//! deterministic instructions the effect is the function
//! [`spec_execute`]; for the four instructions that consult the outside
//! world (the random byte of RND, the key polls of SKP and SKNP, and the
//! blocking key read) the contract states what holds for every possible
//! answer. Fatal conditions (stack overflow and underflow, memory
//! accesses outside `[0, 4096)`) surface as [`Fault`] values and leave
//! the state unchanged.

use vstd::prelude::*;

use crate::display::{
    bit_xor, blank_pixels, draw_bit, draw_events, draw_pos, draw_upto, pix_idx, spec_draw,
    spec_draw_collision, DisplayEvent, HEIGHT, WIDTH,
};
use crate::fault::Fault;
use crate::instructions::Instruction;
use crate::keyboard::Keyboard;
use crate::memory::MAX_SIZE;
use crate::operand::{read_ok, read_value, spec_read, spec_write, write_ok, write_value, Operand};
use crate::registers::FLAG_REGISTER;
use crate::stack::{StackError, STACK_SIZE};
use crate::state::{MachineView, State};

verus! {

/// The modulus at which a destination wraps: 65536 for the 16-bit index
/// register, 256 for every 8-bit location.
pub open spec fn op_width(op: Operand) -> int {
    if op is IndexReg {
        65536
    } else {
        256
    }
}

/// Storing one scalar value into a destination operand: the written
/// machine on success, a fatal fault (state unchanged) when the
/// destination lies outside memory.
pub open spec fn store_scalar(dst: Operand, m: MachineView, val: u16) -> Result<
    MachineView,
    Fault,
> {
    if write_ok(dst, m, 1) {
        Ok(spec_write(dst, m, seq![val]))
    } else {
        Err(Fault::MemoryOutOfBounds)
    }
}

/// The machine after a skip decision: the program counter moves two
/// bytes beyond its normal advance when the skip is taken.
pub open spec fn spec_skip(m: MachineView, taken: bool) -> MachineView {
    if taken {
        MachineView { pc: (m.pc + 2) as usize, ..m }
    } else {
        m
    }
}

/// The effect of a deterministic instruction on the machine: the new
/// machine view on success, or the fatal fault (with the machine
/// unchanged) that the instruction raises.
#[verifier::opaque]
pub open spec fn spec_execute(i: Instruction, m: MachineView) -> Result<MachineView, Fault>
    recommends
        i.wf(),
        i.deterministic(),
{
    match i {
        Instruction::Cls => Ok(
            MachineView {
                pixels: blank_pixels(),
                events: m.events.push(DisplayEvent::Cleared),
                ..m
            },
        ),
        Instruction::Ret => if m.stack.len() == 0 {
            Err(Fault::Stack(StackError::Empty))
        } else {
            Ok(MachineView { pc: m.stack.last(), stack: m.stack.drop_last(), ..m })
        },
        Instruction::Sys(a) => Ok(MachineView { pc: a as usize, ..m }),
        Instruction::Jp { base, addr } => if !read_ok(base, m) {
            Err(Fault::MemoryOutOfBounds)
        } else {
            Ok(MachineView { pc: (addr + spec_read(base, m)[0]) as usize, ..m })
        },
        Instruction::Call(a) => if m.stack.len() == STACK_SIZE {
            Err(Fault::Stack(StackError::Full))
        } else {
            Ok(MachineView { stack: m.stack.push(m.pc), pc: a as usize, ..m })
        },
        Instruction::Se { left, right } => if !read_ok(left, m) || !read_ok(right, m) {
            Err(Fault::MemoryOutOfBounds)
        } else {
            Ok(spec_skip(m, spec_read(left, m)[0] == spec_read(right, m)[0]))
        },
        Instruction::Sne { left, right } => if !read_ok(left, m) || !read_ok(right, m) {
            Err(Fault::MemoryOutOfBounds)
        } else {
            Ok(spec_skip(m, spec_read(left, m)[0] != spec_read(right, m)[0]))
        },
        Instruction::Ld { dst, src } => if !read_ok(src, m) {
            Err(Fault::MemoryOutOfBounds)
        } else {
            let vals = spec_read(src, m);
            if !write_ok(dst, m, vals.len()) {
                Err(Fault::MemoryOutOfBounds)
            } else {
                Ok(spec_write(dst, m, vals))
            }
        },
        Instruction::Add { dst, src } => if !read_ok(dst, m) || !read_ok(src, m) {
            Err(Fault::MemoryOutOfBounds)
        } else {
            let a = spec_read(dst, m)[0] as int;
            let b = spec_read(src, m)[0] as int;
            store_scalar(dst, m, ((a + b) % op_width(dst)) as u16)
        },
        Instruction::AddF { dst, src } => match dst {
            Operand::VReg(x) => if !read_ok(src, m) {
                Err(Fault::MemoryOutOfBounds)
            } else {
                let a = m.v[x as int] as int;
                let b = spec_read(src, m)[0] as int;
                let carry: u8 = if a + b > 255 {
                    1u8
                } else {
                    0u8
                };
                Ok(
                    MachineView {
                        v: m.v.update(FLAG_REGISTER as int, carry).update(
                            x as int,
                            ((a + b) % 256) as u8,
                        ),
                        ..m
                    },
                )
            },
            _ => arbitrary(),
        },
        Instruction::Or { dst, src } => if !read_ok(dst, m) || !read_ok(src, m) {
            Err(Fault::MemoryOutOfBounds)
        } else {
            store_scalar(dst, m, spec_read(dst, m)[0] | spec_read(src, m)[0])
        },
        Instruction::And { dst, src } => if !read_ok(dst, m) || !read_ok(src, m) {
            Err(Fault::MemoryOutOfBounds)
        } else {
            store_scalar(dst, m, spec_read(dst, m)[0] & spec_read(src, m)[0])
        },
        Instruction::Xor { dst, src } => if !read_ok(dst, m) || !read_ok(src, m) {
            Err(Fault::MemoryOutOfBounds)
        } else {
            store_scalar(dst, m, spec_read(dst, m)[0] ^ spec_read(src, m)[0])
        },
        Instruction::Sub { dst, src } => match dst {
            Operand::VReg(x) => if !read_ok(src, m) {
                Err(Fault::MemoryOutOfBounds)
            } else {
                let a = m.v[x as int] as int;
                let b = spec_read(src, m)[0] as int;
                let no_borrow: u8 = if a >= b {
                    1u8
                } else {
                    0u8
                };
                Ok(
                    MachineView {
                        v: m.v.update(FLAG_REGISTER as int, no_borrow).update(
                            x as int,
                            ((a - b) % 256) as u8,
                        ),
                        ..m
                    },
                )
            },
            _ => arbitrary(),
        },
        Instruction::Subn { dst, src } => match dst {
            Operand::VReg(x) => if !read_ok(src, m) {
                Err(Fault::MemoryOutOfBounds)
            } else {
                let a = m.v[x as int] as int;
                let b = spec_read(src, m)[0] as int;
                let no_borrow: u8 = if b >= a {
                    1u8
                } else {
                    0u8
                };
                Ok(
                    MachineView {
                        v: m.v.update(FLAG_REGISTER as int, no_borrow).update(
                            x as int,
                            ((b - a) % 256) as u8,
                        ),
                        ..m
                    },
                )
            },
            _ => arbitrary(),
        },
        Instruction::Shr { dst } => match dst {
            Operand::VReg(x) => {
                let val = m.v[x as int];
                Ok(
                    MachineView {
                        v: m.v.update(FLAG_REGISTER as int, (val % 2) as u8).update(
                            x as int,
                            (val / 2) as u8,
                        ),
                        ..m
                    },
                )
            },
            _ => arbitrary(),
        },
        Instruction::Shl { dst } => match dst {
            Operand::VReg(x) => {
                let val = m.v[x as int];
                Ok(
                    MachineView {
                        v: m.v.update(FLAG_REGISTER as int, (val / 128) as u8).update(
                            x as int,
                            ((val * 2) % 256) as u8,
                        ),
                        ..m
                    },
                )
            },
            _ => arbitrary(),
        },
        Instruction::Drw { x, y, n } => match n {
            Operand::Literal(nv) => if !read_ok(x, m) || !read_ok(y, m) {
                Err(Fault::MemoryOutOfBounds)
            } else if nv > 0 && m.i + nv > MAX_SIZE {
                Err(Fault::MemoryOutOfBounds)
            } else {
                let xv = spec_read(x, m)[0] as int;
                let yv = spec_read(y, m)[0] as int;
                let rows = if nv == 0 {
                    Seq::<u8>::empty()
                } else {
                    m.mem.subrange(m.i as int, m.i + nv)
                };
                let collision: u8 = if spec_draw_collision(m.pixels, rows, xv, yv) {
                    1u8
                } else {
                    0u8
                };
                Ok(
                    MachineView {
                        pixels: spec_draw(m.pixels, rows, xv, yv),
                        events: m.events + draw_events(m.pixels, rows, xv, yv),
                        v: m.v.update(FLAG_REGISTER as int, collision),
                        ..m
                    },
                )
            },
            _ => arbitrary(),
        },
        _ => arbitrary(),
    }
}

/// The effect of the RND instruction given the random byte `b` the
/// generator produced.
pub open spec fn spec_rnd_step(dst: Operand, mask: Operand, m: MachineView, b: u8) -> Result<
    MachineView,
    Fault,
> {
    if !read_ok(mask, m) {
        Err(Fault::MemoryOutOfBounds)
    } else {
        store_scalar(dst, m, (b as u16) & spec_read(mask, m)[0])
    }
}

/// The effect of the blocking key read given the key `k` that was
/// eventually pressed.
pub open spec fn spec_key_step(dst: Operand, m: MachineView, k: u8) -> Result<
    MachineView,
    Fault,
> {
    store_scalar(dst, m, k as u16)
}

/// Whether executing RND with random byte `b` turns machine `m0` into
/// `m1` with result `r`.
pub open spec fn rnd_outcome(
    dst: Operand,
    mask: Operand,
    m0: MachineView,
    m1: MachineView,
    e: Option<Fault>,
    b: u8,
) -> bool {
    match spec_rnd_step(dst, mask, m0, b) {
        Ok(m) => e is None && m1 == m,
        Err(f) => e == Some(f) && m1 == m0,
    }
}

/// Whether the blocking key read answering with key `k` turns machine
/// `m0` into `m1` with result `r`.
pub open spec fn key_outcome(
    dst: Operand,
    m0: MachineView,
    m1: MachineView,
    e: Option<Fault>,
    k: u8,
) -> bool {
    match spec_key_step(dst, m0, k) {
        Ok(m) => e is None && m1 == m,
        Err(f) => e == Some(f) && m1 == m0,
    }
}

/// How one executed instruction relates the machine before (`m0`) to the
/// machine after (`m1`) and to the returned result. Deterministic
/// instructions follow [`spec_execute`] exactly; the four instructions
/// that consult the outside world are related for some answer — a random
/// byte, a key, or whether a key was held — since no answer is promised.
pub open spec fn exec_rel(
    i: Instruction,
    m0: MachineView,
    m1: MachineView,
    e: Option<Fault>,
) -> bool {
    if i.deterministic() {
        match spec_execute(i, m0) {
            Ok(m) => e is None && m1 == m,
            Err(f) => e == Some(f) && m1 == m0,
        }
    } else {
        match i {
            Instruction::Rnd { dst, mask } => exists|b: u8| rnd_outcome(dst, mask, m0, m1, e, b),
            Instruction::Skp { key } => if !read_ok(key, m0) {
                e == Some(Fault::MemoryOutOfBounds) && m1 == m0
            } else {
                e is None && exists|held: bool| m1 == spec_skip(m0, held)
            },
            Instruction::Sknp { key } => if !read_ok(key, m0) {
                e == Some(Fault::MemoryOutOfBounds) && m1 == m0
            } else {
                e is None && exists|held: bool| m1 == spec_skip(m0, held)
            },
            Instruction::Ld { dst, .. } => exists|k: u8| key_outcome(dst, m0, m1, e, k),
            _ => false,
        }
    }
}

/// Relies on rand::random: one byte from the thread-local random
/// generator. Nothing is promised of the value.
#[verifier::external_body]
fn random_byte() -> u8 {
    rand::random::<u8>()
}

/// Stores one scalar value into a destination operand.
fn store_scalar_exec(dst: &Operand, s: &mut State, val: u16) -> (r: Result<(), Fault>)
    requires
        old(s).wf(),
        dst.wf(),
        dst.writable(),
    ensures
        final(s).wf(),
        match store_scalar(*dst, old(s)@, val) {
            Ok(m) => r is Ok && final(s)@ == m,
            Err(f) => r == Err::<(), Fault>(f) && final(s)@ == old(s)@,
        },
{
    let mut vals: Vec<u16> = Vec::new();
    vals.push(val);
    proof {
        assert(vals@ =~= seq![val]);
    }
    write_value(dst, s, &vals)
}

/// Draws the `n`-row sprite at address I onto (x, y): XOR with
/// wraparound, collision into VF.
fn exec_draw(s: &mut State, xo: &Operand, yo: &Operand, nv: u16) -> (r: Result<(), Fault>)
    requires
        old(s).wf(),
        xo.wf(),
        xo.readable(),
        xo.read_len() == 1,
        yo.wf(),
        yo.readable(),
        yo.read_len() == 1,
        nv < 16,
    ensures
        final(s).wf(),
        exec_rel(
            Instruction::Drw { x: *xo, y: *yo, n: Operand::Literal(nv) },
            old(s)@,
            final(s)@,
            crate::fault::fault_of(r),
        ),
{
    proof {
        reveal(spec_execute);
    }
    let ghost instr = Instruction::Drw { x: *xo, y: *yo, n: Operand::Literal(nv) };
    let xvals = match read_value(xo, s) {
        Ok(v) => v,
        Err(f) => {
            return Err(f);
        },
    };
    let yvals = match read_value(yo, s) {
        Ok(v) => v,
        Err(f) => {
            return Err(f);
        },
    };
    let n = nv as usize;
    let base = s.registers.i_register as usize;
    if n > 0 && base + n > MAX_SIZE {
        return Err(Fault::MemoryOutOfBounds);
    }
    let x = xvals[0] as usize;
    let y = yvals[0] as usize;
    let ghost m0 = s@;
    let ghost rows = if n == 0 {
        Seq::<u8>::empty()
    } else {
        s@.mem.subrange(base as int, base + n)
    };
    let ghost de = draw_events(m0.pixels, rows, x as int, y as int);
    let mut vf: u8 = 0;
    let mut i: usize = 0;
    while i < n
        invariant
            i <= n,
            n < 16,
            n == rows.len(),
            base == s@.i,
            base + n <= MAX_SIZE || n == 0,
            x == spec_read(*xo, m0)[0],
            y == spec_read(*yo, m0)[0],
            s.wf(),
            s@.mem == m0.mem,
            s@.v == m0.v,
            s@.i == m0.i,
            s@.dt == m0.dt,
            s@.st == m0.st,
            s@.stack == m0.stack,
            s@.pc == m0.pc,
            rows == (if n == 0 {
                Seq::<u8>::empty()
            } else {
                m0.mem.subrange(base as int, base + n)
            }),
            de == draw_events(m0.pixels, rows, x as int, y as int),
            s@.pixels == draw_upto(m0.pixels, rows, x as int, y as int, (8 * i) as nat),
            s@.events == m0.events + de.take(8 * i),
            vf <= 1,
            (vf == 1) == crate::display::collide_upto(
                m0.pixels,
                rows,
                x as int,
                y as int,
                (8 * i) as nat,
            ),
        decreases n - i,
    {
        let byte = s.memory.read_byte(base + i);
        proof {
            assert(byte == rows[i as int]);
        }
        let mut j: usize = 0;
        while j < 8
            invariant
                j <= 8,
                i < n,
                n < 16,
                n == rows.len(),
                base == s@.i,
                base + n <= MAX_SIZE,
                byte == rows[i as int],
                x == spec_read(*xo, m0)[0],
                y == spec_read(*yo, m0)[0],
                s.wf(),
                s@.mem == m0.mem,
                s@.v == m0.v,
                s@.i == m0.i,
                s@.dt == m0.dt,
                s@.st == m0.st,
                s@.stack == m0.stack,
                s@.pc == m0.pc,
                rows == m0.mem.subrange(base as int, base + n),
                de == draw_events(m0.pixels, rows, x as int, y as int),
                s@.pixels == draw_upto(
                    m0.pixels,
                    rows,
                    x as int,
                    y as int,
                    (8 * i + j) as nat,
                ),
                s@.events == m0.events + de.take(8 * i + j),
                vf <= 1,
                (vf == 1) == crate::display::collide_upto(
                    m0.pixels,
                    rows,
                    x as int,
                    y as int,
                    (8 * i + j) as nat,
                ),
            decreases 8 - j,
        {
            let bit: u8 = match j {
                0 => byte / 128,
                1 => (byte / 64) % 2,
                2 => (byte / 32) % 2,
                3 => (byte / 16) % 2,
                4 => (byte / 8) % 2,
                5 => (byte / 4) % 2,
                6 => (byte / 2) % 2,
                _ => byte % 2,
            };
            let ghost t = 8 * i + j;
            let ghost q = s@.pixels;
            proof {
                s.lemma_wf_view();
                assert(q.len() == crate::display::NUM_PIXELS);
                assert(t % 8 == j && t / 8 == i);
                assert(bit == draw_bit(rows, t as int));
                assert(bit <= 1);
                assert(draw_pos(x as int, y as int, t as int) == pix_idx(
                    (x + j) as int,
                    (y + i) as int,
                ));
            }
            let collision = s.display.xor(x + j, y + i, bit);
            if collision == 1 {
                vf = 1;
            }
            j = j + 1;
            proof {
                let pos = draw_pos(x as int, y as int, t as int);
                assert(0 <= pos < q.len()) by {
                    vstd::arithmetic::div_mod::lemma_mod_bound(
                        x + (t as int) % 8,
                        WIDTH as int,
                    );
                    vstd::arithmetic::div_mod::lemma_mod_bound(
                        y + (t as int) / 8,
                        HEIGHT as int,
                    );
                }
                assert(s@.pixels =~= draw_upto(
                    m0.pixels,
                    rows,
                    x as int,
                    y as int,
                    (t + 1) as nat,
                ));
                assert(draw_upto(m0.pixels, rows, x as int, y as int, (t + 1) as nat)[pos]
                    == bit_xor(q[pos], bit));
                assert(de[t as int] == DisplayEvent::PixelToggled {
                    x: ((x + j - 1) % (WIDTH as int)) as usize,
                    y: ((y + i) % (HEIGHT as int)) as usize,
                    value: bit_xor(q[pos], bit),
                });
                assert(s@.events =~= m0.events + de.take(t + 1));
            }
        }
        i = i + 1;
    }
    s.registers.v_registers.set(FLAG_REGISTER, vf);
    proof {
        assert(8 * i == 8 * rows.len());
        assert(de.take(8 * i as int) =~= de);
        assert(s@ =~= (MachineView {
            pixels: spec_draw(m0.pixels, rows, x as int, y as int),
            events: m0.events + de,
            v: m0.v.update(FLAG_REGISTER as int, vf),
            ..m0
        }));
        assert(exec_rel(instr, m0, s@, None::<Fault>));
    }
    Ok(())
}

/// Executes one decoded instruction against the machine, consulting the
/// keyboard capability where the instruction demands it. On a fatal
/// fault the machine is left unchanged and the fault is returned.
pub fn execute<KB: Keyboard>(i: &Instruction, s: &mut State, kb: &mut KB) -> (r: Result<
    (),
    Fault,
>)
    requires
        old(s).wf(),
        i.wf(),
        old(s)@.pc + 2 <= usize::MAX,
    ensures
        final(s).wf(),
        exec_rel(*i, old(s)@, final(s)@, crate::fault::fault_of(r)),
{
    proof {
        reveal(spec_execute);
    }
    match i {
        Instruction::Cls => {
            s.display.clear();
            proof {
                assert(s@ =~= (MachineView {
                    pixels: blank_pixels(),
                    events: old(s)@.events.push(DisplayEvent::Cleared),
                    ..old(s)@
                }));
            }
            Ok(())
        },
        Instruction::Ret => {
            match s.stack.pop() {
                Ok(pc) => {
                    s.program_counter = pc;
                    proof {
                        assert(s@ =~= (MachineView {
                            pc: old(s)@.stack.last(),
                            stack: old(s)@.stack.drop_last(),
                            ..old(s)@
                        }));
                    }
                    Ok(())
                },
                Err(e) => {
                    proof {
                        assert(s@ =~= old(s)@);
                    }
                    Err(Fault::Stack(e))
                },
            }
        },
        Instruction::Sys(a) => {
            s.program_counter = *a as usize;
            proof {
                assert(s@ =~= (MachineView { pc: *a as usize, ..old(s)@ }));
            }
            Ok(())
        },
        Instruction::Jp { base, addr } => {
            let vals = match read_value(base, s) {
                Ok(v) => v,
                Err(f) => {
                    return Err(f);
                },
            };
            s.program_counter = *addr as usize + vals[0] as usize;
            proof {
                assert(s@ =~= (MachineView {
                    pc: (*addr + spec_read(*base, old(s)@)[0]) as usize,
                    ..old(s)@
                }));
            }
            Ok(())
        },
        Instruction::Call(a) => {
            match s.stack.push(s.program_counter) {
                Ok(()) => {
                    s.program_counter = *a as usize;
                    proof {
                        assert(s@ =~= (MachineView {
                            stack: old(s)@.stack.push(old(s)@.pc),
                            pc: *a as usize,
                            ..old(s)@
                        }));
                    }
                    Ok(())
                },
                Err(e) => {
                    proof {
                        assert(s@ =~= old(s)@);
                    }
                    Err(Fault::Stack(e))
                },
            }
        },
        Instruction::Se { left, right } => {
            let lv = match read_value(left, s) {
                Ok(v) => v,
                Err(f) => {
                    return Err(f);
                },
            };
            let rv = match read_value(right, s) {
                Ok(v) => v,
                Err(f) => {
                    return Err(f);
                },
            };
            if lv[0] == rv[0] {
                s.program_counter = s.program_counter + 2;
            }
            proof {
                assert(s@ =~= spec_skip(
                    old(s)@,
                    spec_read(*left, old(s)@)[0] == spec_read(*right, old(s)@)[0],
                ));
            }
            Ok(())
        },
        Instruction::Sne { left, right } => {
            let lv = match read_value(left, s) {
                Ok(v) => v,
                Err(f) => {
                    return Err(f);
                },
            };
            let rv = match read_value(right, s) {
                Ok(v) => v,
                Err(f) => {
                    return Err(f);
                },
            };
            if lv[0] != rv[0] {
                s.program_counter = s.program_counter + 2;
            }
            proof {
                assert(s@ =~= spec_skip(
                    old(s)@,
                    spec_read(*left, old(s)@)[0] != spec_read(*right, old(s)@)[0],
                ));
            }
            Ok(())
        },
        Instruction::Ld { dst, src } => {
            if matches!(src, Operand::KeyWait) {
                let k = kb.wait_for_key_press();
                let r = store_scalar_exec(dst, s, k as u16);
                proof {
                    assert(key_outcome(*dst, old(s)@, s@, crate::fault::fault_of(r), k));
                }
                r
            } else {
                let vals = match read_value(src, s) {
                    Ok(v) => v,
                    Err(f) => {
                        return Err(f);
                    },
                };
                write_value(dst, s, &vals)
            }
        },
        Instruction::Add { dst, src } => {
            let dv = match read_value(dst, s) {
                Ok(v) => v,
                Err(f) => {
                    return Err(f);
                },
            };
            let sv = match read_value(src, s) {
                Ok(v) => v,
                Err(f) => {
                    return Err(f);
                },
            };
            let sum = dv[0] as u32 + sv[0] as u32;
            let wrapped = if matches!(dst, Operand::IndexReg) {
                (sum % 65536) as u16
            } else {
                (sum % 256) as u16
            };
            store_scalar_exec(dst, s, wrapped)
        },
        Instruction::AddF { dst, src } => {
            let x = match dst {
                Operand::VReg(x) => *x as usize,
                _ => {
                    return unreached();
                },
            };
            let sv = match read_value(src, s) {
                Ok(v) => v,
                Err(f) => {
                    return Err(f);
                },
            };
            let a = s.registers.v_registers[x];
            let sum = a as u32 + sv[0] as u32;
            let carry: u8 = if sum > 255 {
                1
            } else {
                0
            };
            s.registers.v_registers.set(FLAG_REGISTER, carry);
            s.registers.v_registers.set(x, (sum % 256) as u8);
            proof {
                assert(s@ =~= (MachineView {
                    v: old(s)@.v.update(FLAG_REGISTER as int, carry).update(
                        x as int,
                        ((old(s)@.v[x as int] + spec_read(*src, old(s)@)[0]) % 256) as u8,
                    ),
                    ..old(s)@
                }));
            }
            Ok(())
        },
        Instruction::Or { dst, src } => {
            let dv = match read_value(dst, s) {
                Ok(v) => v,
                Err(f) => {
                    return Err(f);
                },
            };
            let sv = match read_value(src, s) {
                Ok(v) => v,
                Err(f) => {
                    return Err(f);
                },
            };
            store_scalar_exec(dst, s, dv[0] | sv[0])
        },
        Instruction::And { dst, src } => {
            let dv = match read_value(dst, s) {
                Ok(v) => v,
                Err(f) => {
                    return Err(f);
                },
            };
            let sv = match read_value(src, s) {
                Ok(v) => v,
                Err(f) => {
                    return Err(f);
                },
            };
            store_scalar_exec(dst, s, dv[0] & sv[0])
        },
        Instruction::Xor { dst, src } => {
            let dv = match read_value(dst, s) {
                Ok(v) => v,
                Err(f) => {
                    return Err(f);
                },
            };
            let sv = match read_value(src, s) {
                Ok(v) => v,
                Err(f) => {
                    return Err(f);
                },
            };
            store_scalar_exec(dst, s, dv[0] ^ sv[0])
        },
        Instruction::Sub { dst, src } => {
            let x = match dst {
                Operand::VReg(x) => *x as usize,
                _ => {
                    return unreached();
                },
            };
            let sv = match read_value(src, s) {
                Ok(v) => v,
                Err(f) => {
                    return Err(f);
                },
            };
            let a = s.registers.v_registers[x] as u32;
            let b = sv[0] as u32;
            let no_borrow: u8 = if a >= b {
                1
            } else {
                0
            };
            let diff = ((a + 65536 - b) % 256) as u8;
            s.registers.v_registers.set(FLAG_REGISTER, no_borrow);
            s.registers.v_registers.set(x, diff);
            proof {
                let ai = old(s)@.v[x as int] as int;
                let bi = spec_read(*src, old(s)@)[0] as int;
                assert((ai + 65536 - bi) % 256 == (ai - bi) % 256) by {
                    vstd::arithmetic::div_mod::lemma_mod_multiples_vanish(256, ai - bi, 256);
                }
                assert(s@ =~= (MachineView {
                    v: old(s)@.v.update(FLAG_REGISTER as int, no_borrow).update(
                        x as int,
                        ((ai - bi) % 256) as u8,
                    ),
                    ..old(s)@
                }));
            }
            Ok(())
        },
        Instruction::Subn { dst, src } => {
            let x = match dst {
                Operand::VReg(x) => *x as usize,
                _ => {
                    return unreached();
                },
            };
            let sv = match read_value(src, s) {
                Ok(v) => v,
                Err(f) => {
                    return Err(f);
                },
            };
            let a = s.registers.v_registers[x] as u32;
            let b = sv[0] as u32;
            let no_borrow: u8 = if b >= a {
                1
            } else {
                0
            };
            let diff = ((b + 65536 - a) % 256) as u8;
            s.registers.v_registers.set(FLAG_REGISTER, no_borrow);
            s.registers.v_registers.set(x, diff);
            proof {
                let ai = old(s)@.v[x as int] as int;
                let bi = spec_read(*src, old(s)@)[0] as int;
                assert((bi + 65536 - ai) % 256 == (bi - ai) % 256) by {
                    vstd::arithmetic::div_mod::lemma_mod_multiples_vanish(256, bi - ai, 256);
                }
                assert(s@ =~= (MachineView {
                    v: old(s)@.v.update(FLAG_REGISTER as int, no_borrow).update(
                        x as int,
                        ((bi - ai) % 256) as u8,
                    ),
                    ..old(s)@
                }));
            }
            Ok(())
        },
        Instruction::Shr { dst } => {
            let x = match dst {
                Operand::VReg(x) => *x as usize,
                _ => {
                    return unreached();
                },
            };
            let val = s.registers.v_registers[x];
            s.registers.v_registers.set(FLAG_REGISTER, val % 2);
            s.registers.v_registers.set(x, val / 2);
            proof {
                assert(s@ =~= (MachineView {
                    v: old(s)@.v.update(FLAG_REGISTER as int, (old(s)@.v[x as int] % 2) as u8)
                        .update(x as int, (old(s)@.v[x as int] / 2) as u8),
                    ..old(s)@
                }));
            }
            Ok(())
        },
        Instruction::Shl { dst } => {
            let x = match dst {
                Operand::VReg(x) => *x as usize,
                _ => {
                    return unreached();
                },
            };
            let val = s.registers.v_registers[x];
            s.registers.v_registers.set(FLAG_REGISTER, val / 128);
            s.registers.v_registers.set(x, ((val as u32 * 2) % 256) as u8);
            proof {
                assert(s@ =~= (MachineView {
                    v: old(s)@.v.update(FLAG_REGISTER as int, (old(s)@.v[x as int] / 128) as u8)
                        .update(x as int, ((old(s)@.v[x as int] * 2) % 256) as u8),
                    ..old(s)@
                }));
            }
            Ok(())
        },
        Instruction::Rnd { dst, mask } => {
            let b = random_byte();
            let mv = match read_value(mask, s) {
                Ok(v) => v,
                Err(f) => {
                    proof {
                        assert(rnd_outcome(*dst, *mask, old(s)@, s@, Some(f), b));
                    }
                    return Err(f);
                },
            };
            let r = store_scalar_exec(dst, s, (b as u16) & mv[0]);
            proof {
                assert(rnd_outcome(*dst, *mask, old(s)@, s@, crate::fault::fault_of(r), b));
            }
            r
        },
        Instruction::Drw { x, y, n } => {
            let nv = match n {
                Operand::Literal(v) => *v,
                _ => {
                    return unreached();
                },
            };
            exec_draw(s, x, y, nv)
        },
        Instruction::Skp { key } => {
            let kv = match read_value(key, s) {
                Ok(v) => v,
                Err(f) => {
                    return Err(f);
                },
            };
            let held = kb.is_key_pressed(kv[0] as u8);
            if held {
                s.program_counter = s.program_counter + 2;
            }
            proof {
                assert(s@ == spec_skip(old(s)@, held));
            }
            Ok(())
        },
        Instruction::Sknp { key } => {
            let kv = match read_value(key, s) {
                Ok(v) => v,
                Err(f) => {
                    return Err(f);
                },
            };
            let held = kb.is_key_pressed(kv[0] as u8);
            if !held {
                s.program_counter = s.program_counter + 2;
            }
            proof {
                assert(s@ == spec_skip(old(s)@, !held));
            }
            Ok(())
        },
    }
}

} // verus!
