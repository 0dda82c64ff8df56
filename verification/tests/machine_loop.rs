//! Tests of the fetch-decode-execute-advance loop and the frame cycle.

use chip8::display::DisplayEvent;
use chip8::fault::Fault;
use chip8::instructions::InstructionError;
use chip8::keyboard::Keyboard;
use chip8::machine::{run_frame, step, FrameOutcome, StepOutcome};
use chip8::memory::PROGRAM_START;
use chip8::state::State;

/// A keyboard with canned answers.
struct TestKeyboard {
    held: [bool; 16],
    next_key: u8,
    quit: bool,
}

impl TestKeyboard {
    fn idle() -> TestKeyboard {
        TestKeyboard { held: [false; 16], next_key: 0, quit: false }
    }
}

impl Keyboard for TestKeyboard {
    fn is_key_pressed(&mut self, key: u8) -> bool {
        self.held[key as usize]
    }

    fn wait_for_key_press(&mut self) -> u8 {
        self.next_key
    }

    fn is_quit(&mut self) -> bool {
        self.quit
    }
}

#[test]
fn test_step_runs_one_instruction() {
    let mut state = State::new(&[0x60, 0x05]).unwrap();
    let mut kb = TestKeyboard::idle();
    assert_eq!(step(&mut state, &mut kb), Ok(StepOutcome::Ran));
    assert_eq!(state.registers.v_registers[0], 5);
    assert_eq!(state.program_counter, PROGRAM_START + 2);
}

#[test]
fn test_step_skip_advances_by_four() {
    // SE V0, 0 skips the next instruction word when V0 == 0.
    let mut state = State::new(&[0x30, 0x00, 0x60, 0x01, 0x60, 0x02]).unwrap();
    let mut kb = TestKeyboard::idle();
    assert_eq!(step(&mut state, &mut kb), Ok(StepOutcome::Ran));
    assert_eq!(state.program_counter, PROGRAM_START + 4);
    assert_eq!(step(&mut state, &mut kb), Ok(StepOutcome::Ran));
    assert_eq!(state.registers.v_registers[0], 2);
}

#[test]
fn test_step_control_transfer_gets_no_advance() {
    // JP 0x300: the counter rests exactly at the target.
    let mut state = State::new(&[0x13, 0x00]).unwrap();
    let mut kb = TestKeyboard::idle();
    assert_eq!(step(&mut state, &mut kb), Ok(StepOutcome::Ran));
    assert_eq!(state.program_counter, 0x300);
}

/// A CALL followed by a RET restores the program counter to exactly its
/// pre-CALL value.
#[test]
fn test_call_ret_round_trip() {
    // At 0x200: CALL 0x208. At 0x208: RET.
    let mut state = State::new(&[0x22, 0x08, 0, 0, 0, 0, 0, 0, 0x00, 0xEE]).unwrap();
    let mut kb = TestKeyboard::idle();
    let before = state.program_counter;
    assert_eq!(step(&mut state, &mut kb), Ok(StepOutcome::Ran));
    assert_eq!(state.program_counter, 0x208);
    assert_eq!(state.stack.top(), Some(before));
    assert_eq!(step(&mut state, &mut kb), Ok(StepOutcome::Ran));
    assert_eq!(state.program_counter, before);
    assert_eq!(state.stack.top(), None);
}

#[test]
fn test_step_halts_past_end_of_memory() {
    let mut state = State::new(&[]).unwrap();
    let mut kb = TestKeyboard::idle();
    state.program_counter = 4095;
    assert_eq!(step(&mut state, &mut kb), Ok(StepOutcome::Halted));
    assert_eq!(state.program_counter, 4095);
}

#[test]
fn test_step_reports_decode_error() {
    let mut state = State::new(&[0xFF, 0xFF]).unwrap();
    let mut kb = TestKeyboard::idle();
    assert_eq!(
        step(&mut state, &mut kb),
        Err(Fault::BadInstruction(InstructionError(0xFF, 0xFF)))
    );
    assert_eq!(state.program_counter, PROGRAM_START);
}

#[test]
fn test_run_frame_runs_ticks_and_ends_frame() {
    let mut state = State::new(&[0x60, 0x05, 0x71, 0x03]).unwrap();
    let mut kb = TestKeyboard::idle();
    state.timers.delay_timer = 2;
    state.timers.sound_timer = 0;
    assert_eq!(run_frame(&mut state, &mut kb, 2), Ok(FrameOutcome::Running));
    assert_eq!(state.registers.v_registers[0], 5);
    assert_eq!(state.registers.v_registers[1], 3);
    assert_eq!(state.program_counter, PROGRAM_START + 4);
    assert_eq!(state.timers.delay_timer, 1);
    assert_eq!(state.timers.sound_timer, 0);
    assert_eq!(state.display.take_events(), vec![DisplayEvent::FramePresented]);
}

#[test]
fn test_run_frame_quit_polls_first() {
    let mut state = State::new(&[0x60, 0x05]).unwrap();
    let mut kb = TestKeyboard::idle();
    kb.quit = true;
    assert_eq!(run_frame(&mut state, &mut kb, 3), Ok(FrameOutcome::Quit));
    assert_eq!(state.registers.v_registers[0], 0);
    assert_eq!(state.program_counter, PROGRAM_START);
}

#[test]
fn test_run_frame_halts_at_end_of_memory() {
    // JP 0xFFF parks the counter past the last full instruction word.
    let mut state = State::new(&[0x1F, 0xFF]).unwrap();
    let mut kb = TestKeyboard::idle();
    assert_eq!(run_frame(&mut state, &mut kb, 3), Ok(FrameOutcome::Halted));
    assert_eq!(state.program_counter, 0xFFF);
}
