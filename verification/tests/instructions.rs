//! Tests of the decoder and of each instruction's execution.

use chip8::execute::execute;
use chip8::fault::Fault;
use chip8::instructions::{parse, Instruction, InstructionError};
use chip8::keyboard::Keyboard;
use chip8::operand::Operand;
use chip8::stack::StackError;
use chip8::state::State;

/// A keyboard with canned answers.
struct TestKeyboard {
    held: [bool; 16],
    next_key: u8,
    quit: bool,
}

impl TestKeyboard {
    fn idle() -> TestKeyboard {
        TestKeyboard { held: [false; 16], next_key: 0, quit: false }
    }
}

impl Keyboard for TestKeyboard {
    fn is_key_pressed(&mut self, key: u8) -> bool {
        self.held[key as usize]
    }

    fn wait_for_key_press(&mut self) -> u8 {
        self.next_key
    }

    fn is_quit(&mut self) -> bool {
        self.quit
    }
}

#[test]
fn test_add() {
    let mut state = State::new(&[]).unwrap();
    let mut kb = TestKeyboard::idle();
    state.registers.v_registers[12] = 3;
    state.registers.i_register = 45;
    let add = Instruction::Add { dst: Operand::IndexReg, src: Operand::VReg(12) };
    execute(&add, &mut state, &mut kb).unwrap();
    assert_eq!(state.registers.v_registers[12], 3);
    assert_eq!(state.registers.i_register, 48);
}

#[test]
fn test_add_byte_wraps() {
    let mut state = State::new(&[]).unwrap();
    let mut kb = TestKeyboard::idle();
    state.registers.v_registers[2] = 250;
    let add = Instruction::Add { dst: Operand::VReg(2), src: Operand::Literal(10) };
    execute(&add, &mut state, &mut kb).unwrap();
    assert_eq!(state.registers.v_registers[2], 4);
    assert_eq!(state.registers.v_registers[0xF], 0);
}

#[test]
fn test_addf_overflow() {
    let mut state = State::new(&[]).unwrap();
    let mut kb = TestKeyboard::idle();
    state.registers.v_registers[12] = 3;
    state.registers.v_registers[3] = 253;
    let addf = Instruction::AddF { dst: Operand::VReg(3), src: Operand::VReg(12) };
    execute(&addf, &mut state, &mut kb).unwrap();
    assert_eq!(state.registers.v_registers[12], 3);
    assert_eq!(state.registers.v_registers[3], 0);
    assert_eq!(state.registers.v_registers[0xF], 1);
}

#[test]
fn test_addf_no_overflow() {
    let mut state = State::new(&[]).unwrap();
    let mut kb = TestKeyboard::idle();
    state.registers.v_registers[4] = 3;
    state.registers.v_registers[7] = 252;
    let addf = Instruction::AddF { dst: Operand::VReg(7), src: Operand::VReg(4) };
    execute(&addf, &mut state, &mut kb).unwrap();
    assert_eq!(state.registers.v_registers[4], 3);
    assert_eq!(state.registers.v_registers[7], 255);
    assert_eq!(state.registers.v_registers[0xF], 0);
}

#[test]
fn test_and() {
    let mut state = State::new(&[]).unwrap();
    let mut kb = TestKeyboard::idle();
    state.registers.v_registers[3] = 0b1001_1001;
    state.registers.v_registers[5] = 0b1010_1011;
    let and = Instruction::And { dst: Operand::VReg(3), src: Operand::VReg(5) };
    execute(&and, &mut state, &mut kb).unwrap();
    assert_eq!(state.registers.v_registers[3], 0b1000_1001);
    assert_eq!(state.registers.v_registers[5], 0b1010_1011);
}

#[test]
fn test_call() {
    let mut state = State::new(&[]).unwrap();
    let mut kb = TestKeyboard::idle();
    let program_counter = state.program_counter;
    let call = Instruction::Call(0b1000_0010_0001);
    execute(&call, &mut state, &mut kb).unwrap();
    assert_eq!(state.stack.top().unwrap(), program_counter);
    assert_eq!(state.program_counter, 0b1000_0010_0001);
}

#[test]
fn test_drw() {
    let mut state = State::new(&[]).unwrap();
    let mut kb = TestKeyboard::idle();
    state.display.xor(0, 0, 1);
    state.display.xor(1, 1, 1);
    let drw = Instruction::Drw { x: Operand::VReg(0), y: Operand::VReg(1), n: Operand::Literal(5) };
    execute(&drw, &mut state, &mut kb).unwrap();
    assert_eq!(state.registers.v_registers[0xF], 1);
    let image = [
        [0, 1, 1, 1, 0, 0, 0, 0],
        [1, 1, 0, 1, 0, 0, 0, 0],
        [1, 0, 0, 1, 0, 0, 0, 0],
        [1, 0, 0, 1, 0, 0, 0, 0],
        [1, 1, 1, 1, 0, 0, 0, 0],
    ];
    for i in 0..5 {
        for j in 0..8 {
            assert_eq!(image[i][j], state.display.pixel(j, i));
        }
    }
}

#[test]
fn test_jp() {
    let mut state = State::new(&[]).unwrap();
    let mut kb = TestKeyboard::idle();
    let jp = Instruction::Jp { base: Operand::Literal(0), addr: 0b0000_1001_0010 };
    execute(&jp, &mut state, &mut kb).unwrap();
    assert_eq!(state.program_counter, 0b0000_1001_0010);
}

#[test]
fn test_jp_with_offset() {
    let mut state = State::new(&[]).unwrap();
    let mut kb = TestKeyboard::idle();
    state.registers.v_registers[0] = 8;
    let jp = Instruction::Jp { base: Operand::VReg(0), addr: 0x300 };
    execute(&jp, &mut state, &mut kb).unwrap();
    assert_eq!(state.program_counter, 0x308);
}

#[test]
fn test_ld() {
    let mut state = State::new(&[]).unwrap();
    let mut kb = TestKeyboard::idle();
    let ld = Instruction::Ld { dst: Operand::VReg(11), src: Operand::Literal(92) };
    execute(&ld, &mut state, &mut kb).unwrap();
    assert_eq!(state.registers.v_registers[11], 92);
}

#[test]
fn test_ld_store_and_load_block() {
    let mut state = State::new(&[]).unwrap();
    let mut kb = TestKeyboard::idle();
    for k in 0..4 {
        state.registers.v_registers[k] = 10 + k as u8;
    }
    state.registers.i_register = 1000;
    let store = Instruction::Ld { dst: Operand::MemSpan(3), src: Operand::VRegSpan(3) };
    execute(&store, &mut state, &mut kb).unwrap();
    for k in 0..4 {
        assert_eq!(state.memory.ram[1000 + k], 10 + k as u8);
    }
    for k in 0..4 {
        state.registers.v_registers[k] = 0;
    }
    let load = Instruction::Ld { dst: Operand::VRegSpan(3), src: Operand::MemSpan(3) };
    execute(&load, &mut state, &mut kb).unwrap();
    for k in 0..4 {
        assert_eq!(state.registers.v_registers[k], 10 + k as u8);
    }
}

#[test]
fn test_ld_bcd() {
    let mut state = State::new(&[]).unwrap();
    let mut kb = TestKeyboard::idle();
    state.registers.v_registers[6] = 159;
    state.registers.i_register = 900;
    let bcd = Instruction::Ld { dst: Operand::MemSpan(2), src: Operand::BcdDigits(6) };
    execute(&bcd, &mut state, &mut kb).unwrap();
    assert_eq!(state.memory.ram[900], 1);
    assert_eq!(state.memory.ram[901], 5);
    assert_eq!(state.memory.ram[902], 9);
}

#[test]
fn test_ld_key_wait() {
    let mut state = State::new(&[]).unwrap();
    let mut kb = TestKeyboard::idle();
    kb.next_key = 0xB;
    let ld = Instruction::Ld { dst: Operand::VReg(4), src: Operand::KeyWait };
    execute(&ld, &mut state, &mut kb).unwrap();
    assert_eq!(state.registers.v_registers[4], 0xB);
}

#[test]
fn test_or() {
    let mut state = State::new(&[]).unwrap();
    let mut kb = TestKeyboard::idle();
    state.registers.v_registers[1] = 0b1011_0001;
    state.registers.v_registers[13] = 0b1000_0010;
    let or = Instruction::Or { dst: Operand::VReg(1), src: Operand::VReg(13) };
    execute(&or, &mut state, &mut kb).unwrap();
    assert_eq!(state.registers.v_registers[13], 0b1000_0010);
    assert_eq!(state.registers.v_registers[1], 0b1011_0011);
}

#[test]
fn test_ret() {
    let mut state = State::new(&[]).unwrap();
    let mut kb = TestKeyboard::idle();
    state.stack.push(3).unwrap();
    execute(&Instruction::Ret, &mut state, &mut kb).unwrap();
    assert_eq!(state.program_counter, 3);
    assert_eq!(state.stack.top(), None);
}

#[test]
#[should_panic]
fn test_ret_empty_stack() {
    let mut state = State::new(&[]).unwrap();
    let mut kb = TestKeyboard::idle();
    execute(&Instruction::Ret, &mut state, &mut kb).unwrap();
}

#[test]
fn test_stack_faults_surface() {
    let mut state = State::new(&[]).unwrap();
    let mut kb = TestKeyboard::idle();
    assert_eq!(
        execute(&Instruction::Ret, &mut state, &mut kb),
        Err(Fault::Stack(StackError::Empty))
    );
    for _ in 0..16 {
        state.stack.push(0).unwrap();
    }
    assert_eq!(
        execute(&Instruction::Call(0x200), &mut state, &mut kb),
        Err(Fault::Stack(StackError::Full))
    );
}

#[test]
fn test_rnd_basic() {
    let mut state = State::new(&[]).unwrap();
    let mut kb = TestKeyboard::idle();
    state.registers.v_registers[3] = 4;
    let rnd = Instruction::Rnd { dst: Operand::VReg(3), mask: Operand::Literal(0) };
    execute(&rnd, &mut state, &mut kb).unwrap();
    assert_eq!(state.registers.v_registers[3], 0);
}

#[test]
fn test_se_true() {
    let mut state = State::new(&[]).unwrap();
    let mut kb = TestKeyboard::idle();
    state.registers.v_registers[4] = 98;
    let se = Instruction::Se { left: Operand::VReg(4), right: Operand::Literal(98) };
    let program_counter = state.program_counter;
    execute(&se, &mut state, &mut kb).unwrap();
    assert_eq!(state.program_counter, program_counter + 2);
}

#[test]
fn test_se_false() {
    let mut state = State::new(&[]).unwrap();
    let mut kb = TestKeyboard::idle();
    state.registers.v_registers[11] = 9;
    state.registers.v_registers[2] = 44;
    let se = Instruction::Se { left: Operand::VReg(11), right: Operand::VReg(2) };
    let program_counter = state.program_counter;
    execute(&se, &mut state, &mut kb).unwrap();
    assert_eq!(state.program_counter, program_counter);
}

#[test]
fn test_shl_no_overflow() {
    let mut state = State::new(&[]).unwrap();
    let mut kb = TestKeyboard::idle();
    state.registers.v_registers[5] = 0b0101_0111;
    let shl = Instruction::Shl { dst: Operand::VReg(5) };
    execute(&shl, &mut state, &mut kb).unwrap();
    assert_eq!(state.registers.v_registers[5], 0b1010_1110);
    assert_eq!(state.registers.v_registers[0xF], 0);
}

#[test]
fn test_shl_overflow() {
    let mut state = State::new(&[]).unwrap();
    let mut kb = TestKeyboard::idle();
    state.registers.v_registers[8] = 0b1100_0101;
    let shl = Instruction::Shl { dst: Operand::VReg(8) };
    execute(&shl, &mut state, &mut kb).unwrap();
    assert_eq!(state.registers.v_registers[8], 0b1000_1010);
    assert_eq!(state.registers.v_registers[0xF], 1);
}

#[test]
fn test_shr_no_overflow() {
    let mut state = State::new(&[]).unwrap();
    let mut kb = TestKeyboard::idle();
    state.registers.v_registers[5] = 0b1001_0110;
    let shr = Instruction::Shr { dst: Operand::VReg(5) };
    execute(&shr, &mut state, &mut kb).unwrap();
    assert_eq!(state.registers.v_registers[5], 0b0100_1011);
    assert_eq!(state.registers.v_registers[0xF], 0);
}

#[test]
fn test_shr_overflow() {
    let mut state = State::new(&[]).unwrap();
    let mut kb = TestKeyboard::idle();
    state.registers.v_registers[8] = 0b1100_0101;
    let shr = Instruction::Shr { dst: Operand::VReg(8) };
    execute(&shr, &mut state, &mut kb).unwrap();
    assert_eq!(state.registers.v_registers[8], 0b0110_0010);
    assert_eq!(state.registers.v_registers[0xF], 1);
}

#[test]
fn test_skp_and_sknp() {
    let mut state = State::new(&[]).unwrap();
    let mut kb = TestKeyboard::idle();
    kb.held[5] = true;
    state.registers.v_registers[0] = 5;
    let base = state.program_counter;
    execute(&Instruction::Skp { key: Operand::VReg(0) }, &mut state, &mut kb).unwrap();
    assert_eq!(state.program_counter, base + 2);
    execute(&Instruction::Sknp { key: Operand::VReg(0) }, &mut state, &mut kb).unwrap();
    assert_eq!(state.program_counter, base + 2);
    state.registers.v_registers[0] = 6;
    execute(&Instruction::Skp { key: Operand::VReg(0) }, &mut state, &mut kb).unwrap();
    assert_eq!(state.program_counter, base + 2);
    execute(&Instruction::Sknp { key: Operand::VReg(0) }, &mut state, &mut kb).unwrap();
    assert_eq!(state.program_counter, base + 4);
}

#[test]
fn test_sne_true() {
    let mut state = State::new(&[]).unwrap();
    let mut kb = TestKeyboard::idle();
    state.registers.v_registers[4] = 98;
    let se = Instruction::Sne { left: Operand::VReg(4), right: Operand::Literal(98) };
    let program_counter = state.program_counter;
    execute(&se, &mut state, &mut kb).unwrap();
    assert_eq!(state.program_counter, program_counter);
}

#[test]
fn test_sne_false() {
    let mut state = State::new(&[]).unwrap();
    let mut kb = TestKeyboard::idle();
    state.registers.v_registers[11] = 9;
    state.registers.v_registers[2] = 44;
    let se = Instruction::Sne { left: Operand::VReg(11), right: Operand::VReg(2) };
    let program_counter = state.program_counter;
    execute(&se, &mut state, &mut kb).unwrap();
    assert_eq!(state.program_counter, program_counter + 2);
}

#[test]
fn test_sub() {
    let mut state = State::new(&[]).unwrap();
    let mut kb = TestKeyboard::idle();
    state.registers.v_registers[12] = 3;
    state.registers.v_registers[2] = 45;
    let sub = Instruction::Sub { dst: Operand::VReg(2), src: Operand::VReg(12) };
    execute(&sub, &mut state, &mut kb).unwrap();
    assert_eq!(state.registers.v_registers[12], 3);
    assert_eq!(state.registers.v_registers[2], 42);
    assert_eq!(state.registers.v_registers[0xF], 1);
}

#[test]
fn test_subn() {
    let mut state = State::new(&[]).unwrap();
    let mut kb = TestKeyboard::idle();
    state.registers.v_registers[12] = 253;
    state.registers.v_registers[3] = 3;
    let subn = Instruction::Subn { dst: Operand::VReg(3), src: Operand::VReg(12) };
    execute(&subn, &mut state, &mut kb).unwrap();
    assert_eq!(state.registers.v_registers[12], 253);
    assert_eq!(state.registers.v_registers[3], 250);
    assert_eq!(state.registers.v_registers[0xF], 1);
}

#[test]
fn test_sub_overflow() {
    let mut state = State::new(&[]).unwrap();
    let mut kb = TestKeyboard::idle();
    state.registers.v_registers[12] = 200;
    state.registers.v_registers[11] = 45;
    let sub = Instruction::Sub { dst: Operand::VReg(11), src: Operand::VReg(12) };
    execute(&sub, &mut state, &mut kb).unwrap();
    assert_eq!(state.registers.v_registers[12], 200);
    assert_eq!(state.registers.v_registers[11], 101);
    assert_eq!(state.registers.v_registers[0xF], 0);
}

#[test]
fn test_subn_overflow() {
    let mut state = State::new(&[]).unwrap();
    let mut kb = TestKeyboard::idle();
    state.registers.v_registers[4] = 3;
    state.registers.v_registers[7] = 252;
    let subn = Instruction::Subn { dst: Operand::VReg(7), src: Operand::VReg(4) };
    execute(&subn, &mut state, &mut kb).unwrap();
    assert_eq!(state.registers.v_registers[4], 3);
    assert_eq!(state.registers.v_registers[7], 7);
    assert_eq!(state.registers.v_registers[0xF], 0);
}

#[test]
fn test_sys() {
    let mut state = State::new(&[]).unwrap();
    let mut kb = TestKeyboard::idle();
    let sys = Instruction::Sys(0b1011_1001_0010);
    execute(&sys, &mut state, &mut kb).unwrap();
    assert_eq!(state.program_counter, 0b1011_1001_0010);
}

#[test]
fn test_xor() {
    let mut state = State::new(&[]).unwrap();
    let mut kb = TestKeyboard::idle();
    state.registers.v_registers[0x0] = 0b1001_1001;
    state.registers.v_registers[0xE] = 0b1010_0011;
    let xor = Instruction::Xor { dst: Operand::VReg(0x0), src: Operand::VReg(0xE) };
    execute(&xor, &mut state, &mut kb).unwrap();
    assert_eq!(state.registers.v_registers[0x0], 0b0011_1010);
    assert_eq!(state.registers.v_registers[0xE], 0b1010_0011);
}

#[test]
fn test_parse_samples() {
    assert_eq!(parse((0x00, 0xE0)), Ok(Instruction::Cls));
    assert_eq!(parse((0x00, 0xEE)), Ok(Instruction::Ret));
    assert_eq!(parse((0x02, 0x34)), Ok(Instruction::Sys(0x234)));
    assert_eq!(
        parse((0x1A, 0xBC)),
        Ok(Instruction::Jp { base: Operand::Literal(0), addr: 0xABC })
    );
    assert_eq!(parse((0x2F, 0x01)), Ok(Instruction::Call(0xF01)));
    assert_eq!(
        parse((0x36, 0x42)),
        Ok(Instruction::Se { left: Operand::VReg(6), right: Operand::Literal(0x42) })
    );
    assert_eq!(
        parse((0x87, 0x34)),
        Ok(Instruction::AddF { dst: Operand::VReg(7), src: Operand::VReg(3) })
    );
    assert_eq!(
        parse((0xD1, 0x25)),
        Ok(Instruction::Drw { x: Operand::VReg(1), y: Operand::VReg(2), n: Operand::Literal(5) })
    );
    assert_eq!(
        parse((0xF3, 0x65)),
        Ok(Instruction::Ld { dst: Operand::VRegSpan(3), src: Operand::MemSpan(3) })
    );
    assert_eq!(parse((0xE1, 0x9E)), Ok(Instruction::Skp { key: Operand::VReg(1) }));
}

#[test]
fn test_parse_rejects_unknown_words() {
    assert_eq!(parse((0x50, 0x01)), Err(InstructionError(0x50, 0x01)));
    assert_eq!(parse((0x80, 0x08)), Err(InstructionError(0x80, 0x08)));
    assert_eq!(parse((0xE0, 0x00)), Err(InstructionError(0xE0, 0x00)));
    assert_eq!(parse((0xFF, 0xFF)), Err(InstructionError(0xFF, 0xFF)));
}

/// Every one of the 65536 possible instruction words decodes to exactly
/// one instruction value or fails with an error carrying the offending
/// bytes.
#[test]
fn test_decode_total() {
    for word in 0..=0xFFFFu32 {
        let b0 = (word >> 8) as u8;
        let b1 = (word & 0xFF) as u8;
        match parse((b0, b1)) {
            Ok(_) => {},
            Err(e) => assert_eq!(e, InstructionError(b0, b1)),
        }
    }
}
