//! Tests of the uniform operand read/write interface against the
//! machine state.

use chip8::fault::Fault;
use chip8::memory::font_table;
use chip8::operand::{read_value, write_value, Operand};
use chip8::state::State;

#[test]
fn delay_timer_test_read_u8() {
    let mut state = State::new(&[]).unwrap();
    state.timers.delay_timer = 7;
    assert_eq!(read_value(&Operand::DelayTimer, &state), Ok(vec![7]));
}

#[test]
fn delay_timer_test_write_u8() {
    let mut state = State::new(&[]).unwrap();
    write_value(&Operand::DelayTimer, &mut state, &vec![200]).unwrap();
    assert_eq!(state.timers.delay_timer, 200);
}

#[test]
fn sound_timer_test_read_u8() {
    let mut state = State::new(&[]).unwrap();
    state.timers.sound_timer = 7;
    assert_eq!(read_value(&Operand::SoundTimer, &state), Ok(vec![7]));
}

#[test]
fn sound_timer_test_write_u8() {
    let mut state = State::new(&[]).unwrap();
    write_value(&Operand::SoundTimer, &mut state, &vec![200]).unwrap();
    assert_eq!(state.timers.sound_timer, 200);
}

#[test]
fn iregister_test_read_u16() {
    let mut state = State::new(&[]).unwrap();
    state.registers.i_register = 14;
    assert_eq!(read_value(&Operand::IndexReg, &state), Ok(vec![14]));
}

#[test]
fn iregister_test_read_usize() {
    let mut state = State::new(&[]).unwrap();
    state.registers.i_register = 81;
    assert_eq!(read_value(&Operand::IndexReg, &state), Ok(vec![81]));
}

#[test]
fn test_write_u16() {
    let mut state = State::new(&[]).unwrap();
    write_value(&Operand::IndexReg, &mut state, &vec![9]).unwrap();
    assert_eq!(state.registers.i_register, 9);
}

#[test]
fn memory_at_test_read_u8() {
    let mut state = State::new(&[]).unwrap();
    state.memory.ram[0b1001_0100_0010] = 43;
    state.registers.i_register = 0b1001_0100_0010;
    assert_eq!(read_value(&Operand::MemCell(0), &state), Ok(vec![43]));
}

#[test]
fn memory_at_test_write_u8() {
    let mut state = State::new(&[]).unwrap();
    state.registers.i_register = 1403;
    write_value(&Operand::MemCell(0), &mut state, &vec![76]).unwrap();
    assert_eq!(state.memory.ram[1403], 76);
}

#[test]
fn test_read_f() {
    let mut state = State::new(&[]).unwrap();
    state.registers.v_registers[3] = 0xF;
    let result = read_value(&Operand::FontAddr(3), &state).unwrap();
    assert_eq!(result.len(), 1);
    let addr = result[0] as usize;
    let sprite: [u8; 5] = [0b1111_0000, 0b1000_0000, 0b1111_0000, 0b1000_0000, 0b1000_0000];
    for i in 0..5 {
        assert_eq!(state.memory.ram[addr + i], sprite[i]);
    }
}

#[test]
fn test_font_addresses_cover_all_digits() {
    let mut state = State::new(&[]).unwrap();
    let font = font_table();
    for digit in 0..16u8 {
        state.registers.v_registers[0] = digit;
        let addr = read_value(&Operand::FontAddr(0), &state).unwrap()[0] as usize;
        assert_eq!(addr, digit as usize * 5);
        for row in 0..5 {
            assert_eq!(state.memory.ram[addr + row], font[addr + row]);
        }
    }
}

#[test]
fn test_bcd_read() {
    let mut state = State::new(&[]).unwrap();
    state.registers.v_registers[0] = 231;
    assert_eq!(read_value(&Operand::BcdDigits(0), &state), Ok(vec![2, 3, 1]));
    state.registers.v_registers[0] = 31;
    assert_eq!(read_value(&Operand::BcdDigits(0), &state), Ok(vec![0, 3, 1]));
}

#[test]
fn test_read_vec() {
    let mut state = State::new(&[]).unwrap();
    let entries = [3, 14, 7, 20];
    for (key, val) in entries.iter().enumerate() {
        state.registers.v_registers[key] = *val;
    }
    let result = read_value(&Operand::VRegSpan(3), &state).unwrap();
    assert_eq!(result, vec![3, 14, 7, 20]);
}

#[test]
fn test_write_vec() {
    let mut state = State::new(&[]).unwrap();
    state.registers.i_register = 540;
    let entries: Vec<u16> = vec![32, 44, 2, 9, 65];
    write_value(&Operand::MemSpan(4), &mut state, &entries).unwrap();
    for k in 0..5 {
        assert_eq!(state.memory.ram[540 + k] as u16, entries[k]);
    }
}

/// A source shorter than the destination span writes only the
/// overlapping prefix.
#[test]
fn test_write_shorter_source() {
    let mut state = State::new(&[]).unwrap();
    state.registers.i_register = 600;
    state.memory.ram[602] = 9;
    write_value(&Operand::MemSpan(2), &mut state, &vec![5, 6]).unwrap();
    assert_eq!(state.memory.ram[600], 5);
    assert_eq!(state.memory.ram[601], 6);
    assert_eq!(state.memory.ram[602], 9);
}

#[test]
fn test_read_v_register_u8() {
    let mut state = State::new(&[]).unwrap();
    state.registers.v_registers[3] = 4;
    assert_eq!(read_value(&Operand::VReg(3), &state), Ok(vec![4]));
}

#[test]
fn test_read_v_register_u16() {
    let mut state = State::new(&[]).unwrap();
    state.registers.v_registers[12] = 255;
    assert_eq!(read_value(&Operand::VReg(12), &state), Ok(vec![255]));
}

#[test]
fn test_read_v_register_usize() {
    let mut state = State::new(&[]).unwrap();
    state.registers.v_registers[0] = 128;
    assert_eq!(read_value(&Operand::VReg(0), &state), Ok(vec![128]));
}

#[test]
fn test_write_v_register() {
    let mut state = State::new(&[]).unwrap();
    write_value(&Operand::VReg(10), &mut state, &vec![2]).unwrap();
    assert_eq!(state.registers.v_registers[10], 2);
}

/// A memory operand whose address runs past the end of memory is a
/// fatal error, and the state is left unchanged.
#[test]
fn test_memory_operand_out_of_bounds() {
    let mut state = State::new(&[]).unwrap();
    state.registers.i_register = 4095;
    assert_eq!(read_value(&Operand::MemCell(1), &state), Err(Fault::MemoryOutOfBounds));
    assert_eq!(read_value(&Operand::MemSpan(1), &state), Err(Fault::MemoryOutOfBounds));
    let before = state.memory.ram.clone();
    assert_eq!(
        write_value(&Operand::MemSpan(1), &mut state, &vec![1, 2]),
        Err(Fault::MemoryOutOfBounds)
    );
    assert_eq!(state.memory.ram, before);
}
