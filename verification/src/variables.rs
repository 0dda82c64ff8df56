//! Small unsigned values decoded from instruction words: 4-bit nibbles,
//! 8-bit bytes, and 12-bit addresses, each kept as its nibble parts the
//! way the decoder slices them out of the two instruction bytes.

use vstd::prelude::*;

verus! {

/// An unsigned 4-bit value (a nibble).
#[derive(Debug, Clone, Copy, PartialEq, Eq, Structural)]
pub struct B4(pub u8);

impl B4 {
    /// A nibble holds a value below 16.
    pub open spec fn wf(&self) -> bool {
        self.0 < 16
    }

    /// Splits a byte into (upper nibble, lower nibble).
    pub fn from_u8(val: u8) -> (r: (B4, B4))
        ensures
            r.0 == B4(val / 16),
            r.1 == B4(val % 16),
            r.0.wf(),
            r.1.wf(),
            r.0.0 * 16 + r.1.0 == val,
    {
        (B4(val / 16), B4(val % 16))
    }
}

impl From<B4> for u8 {
    /// The numeric value of a nibble.
    fn from(val: B4) -> (r: u8) {
        val.0
    }
}

impl vstd::std_specs::convert::FromSpecImpl<B4> for u8 {
    open spec fn obeys_from_spec() -> bool {
        true
    }

    open spec fn from_spec(v: B4) -> u8 {
        v.0
    }
}

/// An unsigned 8-bit value as two nibbles: upper half first.
#[derive(Debug, Clone, Copy, PartialEq, Eq, Structural)]
pub struct B8(pub B4, pub B4);

impl B8 {
    /// Both halves are nibbles.
    pub open spec fn wf(&self) -> bool {
        self.0.wf() && self.1.wf()
    }

    /// The byte the two nibbles stand for.
    pub open spec fn spec_value(&self) -> u8
        recommends
            self.wf(),
    {
        (self.0.0 * 16 + self.1.0) as u8
    }

    /// Restores the byte from its two nibbles.
    pub fn value(&self) -> (r: u8)
        requires
            self.wf(),
        ensures
            r == self.spec_value(),
    {
        self.0.0 * 16 + self.1.0
    }
}

impl From<u8> for B8 {
    /// Splits a byte into its two nibbles.
    fn from(val: u8) -> (r: B8) {
        let (upper, lower) = B4::from_u8(val);
        B8(upper, lower)
    }
}

impl vstd::std_specs::convert::FromSpecImpl<u8> for B8 {
    open spec fn obeys_from_spec() -> bool {
        true
    }

    open spec fn from_spec(v: u8) -> B8 {
        B8(B4(v / 16), B4(v % 16))
    }
}

/// An unsigned 12-bit value as three nibbles, highest first; instruction
/// words carry memory addresses this way.
#[derive(Debug, Clone, Copy, PartialEq, Eq, Structural)]
pub struct B12(pub B4, pub B4, pub B4);

impl B12 {
    /// All three parts are nibbles.
    pub open spec fn wf(&self) -> bool {
        self.0.wf() && self.1.wf() && self.2.wf()
    }

    /// The 12-bit value the three nibbles stand for.
    pub open spec fn spec_value(&self) -> u16
        recommends
            self.wf(),
    {
        (self.0.0 * 256 + self.1.0 * 16 + self.2.0) as u16
    }

    /// Restores the 12-bit value from its three nibbles.
    pub fn value(&self) -> (r: u16)
        requires
            self.wf(),
        ensures
            r == self.spec_value(),
            r < 4096,
    {
        (self.0.0 as u16) * 256 + (self.1.0 as u16) * 16 + (self.2.0 as u16)
    }
}

impl From<B12> for u16 {
    /// The numeric value of the three nibbles. Only the low four bits of
    /// each part count, so the result is always below 4096.
    fn from(val: B12) -> (r: u16) {
        ((val.0.0 % 16) as u16) * 256 + ((val.1.0 % 16) as u16) * 16 + ((val.2.0 % 16) as u16)
    }
}

impl vstd::std_specs::convert::FromSpecImpl<B12> for u16 {
    open spec fn obeys_from_spec() -> bool {
        true
    }

    open spec fn from_spec(v: B12) -> u16 {
        ((v.0.0 % 16) * 256 + (v.1.0 % 16) * 16 + (v.2.0 % 16)) as u16
    }
}

} // verus!
