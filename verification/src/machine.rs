//! The fetch-decode-execute-advance scheduling: one tick at a time, one
//! frame per iteration of the outer loop a frontend runs.
//!
//! A tick fetches the two bytes at the program counter, decodes them,
//! executes the instruction, and advances the program counter by two
//! unless the instruction performed an explicit control transfer (then
//! the counter stays exactly where the instruction put it). A frame is a
//! batch of ticks followed by a frame-presented notification and one
//! clamped decrement of both timers. The program counter running past the
//! end of memory and the quit signal are normal termination, not errors.

use vstd::prelude::*;

use crate::display::DisplayEvent;
use crate::execute::{exec_rel, execute, spec_execute};
use crate::fault::Fault;
use crate::instructions::{lemma_decode_total, parse, spec_parse, Instruction};
use crate::keyboard::Keyboard;
use crate::memory::MAX_SIZE;
use crate::state::{MachineView, State};
use crate::timers::spec_decrement;

verus! {

/// What one tick did.
#[derive(Debug, Clone, Copy, PartialEq, Eq, Structural)]
pub enum StepOutcome {
    /// An instruction was fetched, decoded, executed, and the counter
    /// advanced.
    Ran,
    /// The program counter stands past the end of memory: the program is
    /// over. Normal termination, not an error.
    Halted,
}

/// What one frame did.
#[derive(Debug, Clone, Copy, PartialEq, Eq, Structural)]
pub enum FrameOutcome {
    /// The frame ran its full batch of ticks; the machine goes on.
    Running,
    /// The program ran past the end of memory during the frame.
    Halted,
    /// The external quit signal fired; the machine stops.
    Quit,
}

/// The program counter after an instruction: control transfers leave it
/// exactly where the instruction put it, everything else advances it by
/// the two bytes of the instruction word.
pub open spec fn spec_advance(i: Instruction, m: MachineView) -> MachineView {
    if i.is_control_transfer() {
        m
    } else {
        MachineView { pc: (m.pc + 2) as usize, ..m }
    }
}

/// How one tick relates the machine before to the machine after and the
/// returned outcome: halt at the end of memory, a decode error for an
/// unrecognized word, or execution followed by the advance.
pub open spec fn step_rel(m0: MachineView, m1: MachineView, r: Result<StepOutcome, Fault>) -> bool {
    if m0.pc + 1 >= MAX_SIZE {
        r == Ok::<StepOutcome, Fault>(StepOutcome::Halted) && m1 == m0
    } else {
        match spec_parse(m0.mem[m0.pc as int], m0.mem[m0.pc + 1]) {
            Err(e) => r == Err::<StepOutcome, Fault>(Fault::BadInstruction(e)) && m1 == m0,
            Ok(i) => match r {
                Ok(StepOutcome::Ran) => exists|mid: MachineView|
                    #[trigger] exec_rel(i, m0, mid, None::<Fault>) && m1 == spec_advance(i, mid),
                Ok(StepOutcome::Halted) => false,
                Err(f) => exec_rel(i, m0, m1, Some(f)),
            },
        }
    }
}

/// An instruction that does not transfer control leaves the program
/// counter at most two bytes beyond where it was (a taken skip).
proof fn lemma_exec_pc_bound(i: Instruction, m0: MachineView, m1: MachineView)
    requires
        i.wf(),
        !i.is_control_transfer(),
        exec_rel(i, m0, m1, None::<Fault>),
    ensures
        m1.pc <= m0.pc + 2,
{
    reveal(spec_execute);
    if i.deterministic() {
        assert(m1 == spec_execute(i, m0)->Ok_0);
    } else {
        match i {
            Instruction::Rnd { dst, mask } => {
                let b = choose|b: u8|
                    crate::execute::rnd_outcome(dst, mask, m0, m1, None::<Fault>, b);
            },
            Instruction::Ld { dst, src } => {
                let k = choose|k: u8| crate::execute::key_outcome(dst, m0, m1, None::<Fault>, k);
            },
            _ => {
                let held = choose|held: bool| m1 == crate::execute::spec_skip(m0, held);
            },
        }
    }
}

/// Whether this instruction assigns the program counter itself.
fn is_transfer(i: &Instruction) -> (r: bool)
    ensures
        r == i.is_control_transfer(),
{
    match i {
        Instruction::Sys(_) => true,
        Instruction::Jp { .. } => true,
        Instruction::Call(_) => true,
        Instruction::Ret => true,
        _ => false,
    }
}

/// One tick: fetch the two bytes at the program counter, decode, execute,
/// and advance the counter by two unless the instruction transferred
/// control. A counter already past the end of memory halts the program
/// instead; a decode failure or a fatal instruction fault is returned
/// with the machine unchanged.
#[verifier::rlimit(100)]
#[verifier::spinoff_prover]
pub fn step<KB: Keyboard>(s: &mut State, kb: &mut KB) -> (r: Result<StepOutcome, Fault>)
    requires
        old(s).wf(),
    ensures
        final(s).wf(),
        step_rel(old(s)@, final(s)@, r),
{
    if s.program_counter >= MAX_SIZE - 1 {
        return Ok(StepOutcome::Halted);
    }
    let b0 = s.memory.read_byte(s.program_counter);
    let b1 = s.memory.read_byte(s.program_counter + 1);
    let instr = match parse((b0, b1)) {
        Ok(i) => i,
        Err(e) => {
            return Err(Fault::BadInstruction(e));
        },
    };
    proof {
        lemma_decode_total(b0, b1);
    }
    let ghost m0 = s@;
    let res = execute(&instr, s, kb);
    let ghost mid = s@;
    proof {
        assert(exec_rel(instr, m0, mid, crate::fault::fault_of(res)));
    }
    match res {
        Ok(()) => {
            proof {
                assert(crate::fault::fault_of(res) == None::<Fault>);
            }
            if !is_transfer(&instr) {
                proof {
                    lemma_exec_pc_bound(instr, m0, mid);
                }
                s.program_counter = s.program_counter + 2;
            }
            proof {
                assert(s@ =~= spec_advance(instr, mid));
                assert(exec_rel(instr, m0, mid, None::<Fault>));
            }
            Ok(StepOutcome::Ran)
        },
        Err(f) => Err(f),
    }
}

/// A chain of machine states where each next state is one successful
/// tick from the previous one.
pub open spec fn is_tick_chain(chain: Seq<MachineView>) -> bool {
    forall|j: int| #![trigger chain[j]]
        0 <= j < chain.len() - 1 ==> step_rel(chain[j], chain[j + 1], Ok(StepOutcome::Ran))
}

/// `k` successful ticks in sequence turn `m0` into `m1`: some chain of
/// k+1 machine states leads from the one to the other, tick by tick.
pub open spec fn ticks_rel(m0: MachineView, m1: MachineView, k: nat) -> bool {
    exists|chain: Seq<MachineView>|
        #[trigger] is_tick_chain(chain) && chain.len() == k + 1 && chain.first() == m0
            && chain.last() == m1
}

/// The frame boundary: the frame-presented notification is emitted and
/// both timers are decremented by exactly one, clamping at zero.
pub open spec fn spec_frame_end(m: MachineView) -> MachineView {
    MachineView {
        events: m.events.push(DisplayEvent::FramePresented),
        dt: spec_decrement(m.dt),
        st: spec_decrement(m.st),
        ..m
    }
}

/// One display frame: poll the quit signal, run the configured batch of
/// ticks, then emit the frame-presented notification and decrement both
/// timers. Quit and running past the end of memory end the frame early
/// and are normal termination; a fatal fault stops the machine in the
/// state the failing tick left it (unchanged by that tick).
#[verifier::rlimit(100)]
#[verifier::spinoff_prover]
pub fn run_frame<KB: Keyboard>(s: &mut State, kb: &mut KB, ticks: u8) -> (r: Result<
    FrameOutcome,
    Fault,
>)
    requires
        old(s).wf(),
    ensures
        final(s).wf(),
        match r {
            Ok(FrameOutcome::Quit) => final(s)@ == old(s)@,
            Ok(FrameOutcome::Halted) => exists|k: nat, mm: MachineView|
                k <= ticks && #[trigger] ticks_rel(old(s)@, mm, k) && final(s)@ == mm
                    && mm.pc + 1 >= MAX_SIZE,
            Ok(FrameOutcome::Running) => exists|mm: MachineView|
                #[trigger] ticks_rel(old(s)@, mm, ticks as nat) && final(s)@ == spec_frame_end(
                    mm,
                ),
            Err(f) => exists|k: nat, mm: MachineView|
                k < ticks && #[trigger] ticks_rel(old(s)@, mm, k) && step_rel(
                    mm,
                    final(s)@,
                    Err(f),
                ),
        },
{
    if kb.is_quit() {
        return Ok(FrameOutcome::Quit);
    }
    let mut t: u8 = 0;
    let ghost mut chain: Seq<MachineView> = seq![s@];
    while t < ticks
        invariant
            t <= ticks,
            s.wf(),
            is_tick_chain(chain),
            chain.len() == t + 1,
            chain.first() == old(s)@,
            chain.last() == s@,
        decreases ticks - t,
    {
        let ghost prev = s@;
        let res = step(s, kb);
        match res {
            Ok(StepOutcome::Ran) => {
                proof {
                    assert(step_rel(prev, s@, res));
                    assert(step_rel(prev, s@, Ok::<StepOutcome, Fault>(StepOutcome::Ran)));
                    let prev_chain = chain;
                    chain = chain.push(s@);
                    assert forall|j: int| #![trigger chain[j]] 0 <= j < chain.len() - 1 implies step_rel(
                        chain[j],
                        chain[j + 1],
                        Ok(StepOutcome::Ran),
                    ) by {
                        if j < chain.len() - 2 {
                            assert(chain[j] == prev_chain[j]);
                            assert(chain[j + 1] == prev_chain[j + 1]);
                            assert(step_rel(
                                prev_chain[j],
                                prev_chain[j + 1],
                                Ok(StepOutcome::Ran),
                            ));
                        } else {
                            assert(chain[j] == prev);
                            assert(chain[j + 1] == s@);
                        }
                    }
                    assert(is_tick_chain(chain));
                }
                t = t + 1;
            },
            Ok(StepOutcome::Halted) => {
                proof {
                    assert(ticks_rel(old(s)@, s@, t as nat));
                    assert(s@.pc + 1 >= MAX_SIZE);
                }
                return Ok(FrameOutcome::Halted);
            },
            Err(f) => {
                proof {
                    assert(ticks_rel(old(s)@, prev, t as nat));
                    assert(step_rel(prev, s@, Err(f)));
                }
                return Err(f);
            },
        }
    }
    let ghost mm = s@;
    proof {
        assert(ticks_rel(old(s)@, mm, ticks as nat));
    }
    s.display.present();
    s.timers.decrement_timers();
    proof {
        assert(s@ =~= spec_frame_end(mm));
    }
    Ok(FrameOutcome::Running)
}

} // verus!
