//! Tests of the nibble, byte, and tribble values the decoder slices
//! instruction words into.

use chip8::variables::{B12, B4, B8};

#[test]
fn byte_test_from_u8() {
    let val: u8 = 0b1001_1110;
    let byte = B8::from(val);
    assert_eq!(byte, B8(B4(0b1001), B4(0b1110)));
    let val: u8 = 0b0000_0000;
    let byte = B8::from(val);
    assert_eq!(byte, B8(B4(0b0000), B4(0b0000)));
}

#[test]
fn byte_test_read_u8() {
    let byte = B8(B4(0b1010), B4(0b0001));
    assert_eq!(byte.value(), 0b1010_0001);
}

#[test]
fn nibble_test_from_u8() {
    let (B4(x), B4(y)) = B4::from_u8(0b1010_1100);
    assert_eq!(x, 0b1010);
    assert_eq!(y, 0b1100);
    let (B4(x), B4(y)) = B4::from_u8(0b1111_0000);
    assert_eq!(x, 0b1111);
    assert_eq!(y, 0b0000);
}

#[test]
fn nibble_test_read_usize() {
    let (x, y): (B4, B4) = B4::from_u8(0b0110_1001);
    assert_eq!(usize::from(u8::from(x)), 0b0110);
    assert_eq!(usize::from(u8::from(y)), 0b1001);
}

#[test]
fn test_into_u8() {
    let val = B4(0b0010);
    assert_eq!(u8::from(val), 0b0010);
}

#[test]
fn tribble_test_read_usize() {
    let val = B12(B4(0b1111), B4(0b1010), B4(0b1011));
    assert_eq!(val.value() as usize, 0b1111_1010_1011);
}

#[test]
fn test_into_u16() {
    let val = B12(B4(0b1100), B4(0b0001), B4(0b0100));
    assert_eq!(u16::from(val), 0b1100_0001_0100);
}

#[test]
fn tribble_test_read_u16() {
    let val = B12(B4(0b1001), B4(0b1000), B4(0b0000));
    assert_eq!(val.value(), 0b1001_1000_0000);
}
