//! Interpreter configuration as plain values.
//!
//! The core consumes only the ticks-per-frame count; the key mapping is
//! consumed by the keyboard capability and the colors and pixel size by
//! the presentation layer. Reading a configuration file and turning
//! these values into window handles or key codes is the frontend's
//! business, not the core's.

use vstd::prelude::*;

verus! {

/// An RGB color for the presentation layer. The core itself has no
/// notion of color.
#[derive(Debug, Clone, Copy, PartialEq, Eq, Structural)]
pub struct ColorConfig {
    pub r: u8,
    pub g: u8,
    pub b: u8,
}

impl ColorConfig {
    /// White, the default color of an active pixel.
    pub fn white() -> (c: ColorConfig)
        ensures
            c == (ColorConfig { r: 255, g: 255, b: 255 }),
    {
        ColorConfig { r: 255, g: 255, b: 255 }
    }

    /// Black, the default color of an inactive pixel.
    pub fn black() -> (c: ColorConfig)
        ensures
            c == (ColorConfig { r: 0, g: 0, b: 0 }),
    {
        ColorConfig { r: 0, g: 0, b: 0 }
    }
}

/// The default key mapping: each pair is (logical hex key, physical
/// key), covering the sixteen logical keys with the conventional
/// left-hand block of a QWERTY keyboard.
pub open spec fn spec_default_keyboard() -> Seq<(char, char)> {
    seq![
        ('1', '1'),
        ('2', '2'),
        ('3', '3'),
        ('C', '4'),
        ('4', 'Q'),
        ('5', 'W'),
        ('6', 'E'),
        ('D', 'R'),
        ('7', 'A'),
        ('8', 'S'),
        ('9', 'D'),
        ('E', 'F'),
        ('A', 'Z'),
        ('0', 'X'),
        ('B', 'C'),
        ('F', 'V'),
    ]
}

/// The configuration of an interpreter run.
#[derive(Debug, Clone)]
pub struct Config {
    /// Instructions executed per display frame.
    pub ticks_per_frame: u8,
    /// Side length of one logical pixel on screen, in physical pixels.
    pub pixel_size: u32,
    /// Color of an active pixel.
    pub active_color: ColorConfig,
    /// Color of an inactive pixel.
    pub inactive_color: ColorConfig,
    /// Mapping from logical hex keys to physical keys.
    pub keyboard: Vec<(char, char)>,
}

impl Config {
    /// The default key mapping as a table.
    pub fn default_keyboard() -> (r: Vec<(char, char)>)
        ensures
            r@ == spec_default_keyboard(),
            r@.len() == 16,
    {
        let mut r: Vec<(char, char)> = Vec::new();
        r.push(('1', '1'));
        r.push(('2', '2'));
        r.push(('3', '3'));
        r.push(('C', '4'));
        r.push(('4', 'Q'));
        r.push(('5', 'W'));
        r.push(('6', 'E'));
        r.push(('D', 'R'));
        r.push(('7', 'A'));
        r.push(('8', 'S'));
        r.push(('9', 'D'));
        r.push(('E', 'F'));
        r.push(('A', 'Z'));
        r.push(('0', 'X'));
        r.push(('B', 'C'));
        r.push(('F', 'V'));
        proof {
            assert(r@ =~= spec_default_keyboard());
        }
        r
    }
}

impl Default for Config {
    /// The default configuration: one tick per frame, ten-pixel cells,
    /// white on black, and the conventional key mapping.
    fn default() -> (c: Config)
        ensures
            c.ticks_per_frame == 1,
            c.pixel_size == 10,
            c.active_color == (ColorConfig { r: 255, g: 255, b: 255 }),
            c.inactive_color == (ColorConfig { r: 0, g: 0, b: 0 }),
            c.keyboard@ == spec_default_keyboard(),
    {
        Config {
            ticks_per_frame: 1,
            pixel_size: 10,
            active_color: ColorConfig::white(),
            inactive_color: ColorConfig::black(),
            keyboard: Config::default_keyboard(),
        }
    }
}

} // verus!
