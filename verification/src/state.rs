//! The complete machine state, and its mathematical view.
//!
//! Every instruction contract is stated over [`MachineView`], a plain
//! mathematical image of the state: memory and registers as sequences,
//! the call stack as a sequence, the pixel grid and the pending display
//! events. The executable [`State`] carries the real data structures.

use vstd::prelude::*;

use crate::display::{blank_pixels, wf_pixels, Display, DisplayEvent};
use crate::memory::{mem_initialized, Memory, MemoryError, MAX_SIZE, PROGRAM_START};
use crate::registers::{Registers, NUM_REGISTERS};
use crate::stack::Stack;
use crate::timers::Timers;

verus! {

/// The mathematical image of a machine state.
#[verifier::ext_equal]
pub ghost struct MachineView {
    /// The 4096 memory bytes.
    pub mem: Seq<u8>,
    /// The sixteen V registers.
    pub v: Seq<u8>,
    /// The index register I.
    pub i: u16,
    /// The delay timer.
    pub dt: u8,
    /// The sound timer.
    pub st: u8,
    /// The call stack, bottom first.
    pub stack: Seq<usize>,
    /// The program counter.
    pub pc: usize,
    /// The pixel grid, row-major.
    pub pixels: Seq<u8>,
    /// Display notifications not yet consumed, oldest first.
    pub events: Seq<DisplayEvent>,
}

/// Structural soundness of a machine view.
pub open spec fn wf_view(m: MachineView) -> bool {
    &&& m.mem.len() == MAX_SIZE
    &&& m.v.len() == NUM_REGISTERS
    &&& wf_pixels(m.pixels)
}

/// The state of a CHIP-8 machine.
#[derive(Debug)]
pub struct State {
    pub display: Display,
    pub memory: Memory,
    pub registers: Registers,
    pub timers: Timers,
    pub stack: Stack,
    pub program_counter: usize,
}

impl View for State {
    type V = MachineView;

    open spec fn view(&self) -> MachineView {
        MachineView {
            mem: self.memory.ram@,
            v: self.registers.v_registers@,
            i: self.registers.i_register,
            dt: self.timers.delay_timer,
            st: self.timers.sound_timer,
            stack: self.stack@,
            pc: self.program_counter,
            pixels: self.display.grid(),
            events: self.display.pending(),
        }
    }
}

impl State {
    /// Structural invariant of the machine: fixed memory size, sixteen
    /// registers, a sixteen-slot stack, one bit per pixel.
    pub open spec fn wf(&self) -> bool {
        &&& self.memory.wf()
        &&& self.registers.wf()
        &&& self.stack.wf()
        &&& self.display.wf()
    }

    /// A well-formed state has a well-formed view.
    pub proof fn lemma_wf_view(&self)
        requires
            self.wf(),
        ensures
            wf_view(self@),
    {
        self.display.lemma_wf_grid();
    }

    /// Creates the machine a program starts in: memory initialized with
    /// the font data and the program, all registers, timers and pixels
    /// zero, the stack empty, and the program counter at the program
    /// start.
    pub fn new(program: &[u8]) -> (r: Result<State, MemoryError>)
        ensures
            match r {
                Ok(s) => {
                    &&& PROGRAM_START + program@.len() <= MAX_SIZE
                    &&& s.wf()
                    &&& mem_initialized(s@.mem, program@)
                    &&& s@.v == Seq::new(NUM_REGISTERS as nat, |k: int| 0u8)
                    &&& s@.i == 0
                    &&& s@.dt == 0
                    &&& s@.st == 0
                    &&& s@.stack == Seq::<usize>::empty()
                    &&& s@.pc == PROGRAM_START
                    &&& s@.pixels == blank_pixels()
                    &&& s@.events == Seq::<DisplayEvent>::empty()
                },
                Err(e) => {
                    &&& PROGRAM_START + program@.len() > MAX_SIZE
                    &&& e == MemoryError::ProgramTooLarge
                },
            },
    {
        let memory = match Memory::new(program) {
            Ok(m) => m,
            Err(e) => {
                return Err(e);
            },
        };
        let s = State {
            display: Display::new(),
            memory,
            registers: Registers::new(),
            timers: Timers::new(),
            stack: Stack::new(),
            program_counter: PROGRAM_START,
        };
        proof {
            assert(s@.v =~= Seq::new(NUM_REGISTERS as nat, |k: int| 0u8));
        }
        Ok(s)
    }
}

} // verus!
