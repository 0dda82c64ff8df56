//! The 4096-byte flat memory of the machine.
//!
//! Bytes `[0, 80)` hold the sixteen built-in 5-byte font sprites for the hex
//! digits 0 through F, bytes `[80, 512)` are reserved and zero, and the
//! program is copied verbatim starting at offset 512.

use vstd::prelude::*;

verus! {

/// Total size of the memory in bytes.
pub const MAX_SIZE: usize = 4096;

/// The offset at which a program is loaded.
pub const PROGRAM_START: usize = 512;

/// Number of bytes of built-in font data (16 sprites of 5 bytes each).
pub const FONT_SIZE: usize = 80;

/// The 80 bytes of font data: five bytes per hex digit, 0 through F, in
/// order. Each byte is one 8-pixel sprite row with the glyph in the high
/// nibble.
pub open spec fn font_data() -> Seq<u8> {
    seq![
        0xF0u8, 0x90, 0x90, 0x90, 0xF0, // 0
        0x20, 0x60, 0x20, 0x20, 0x70, // 1
        0xF0, 0x10, 0xF0, 0x80, 0xF0, // 2
        0xF0, 0x10, 0xF0, 0x10, 0xF0, // 3
        0x90, 0x90, 0xF0, 0x10, 0x10, // 4
        0xF0, 0x80, 0xF0, 0x10, 0xF0, // 5
        0xF0, 0x80, 0xF0, 0x90, 0xF0, // 6
        0xF0, 0x10, 0x20, 0x40, 0x40, // 7
        0xF0, 0x90, 0xF0, 0x90, 0xF0, // 8
        0xF0, 0x90, 0xF0, 0x10, 0xF0, // 9
        0xF0, 0x90, 0xF0, 0x90, 0x90, // A
        0xE0, 0x90, 0xE0, 0x90, 0xE0, // B
        0xF0, 0x80, 0x80, 0x80, 0xF0, // C
        0xE0, 0x90, 0x90, 0x90, 0xE0, // D
        0xF0, 0x80, 0xF0, 0x80, 0xF0, // E
        0xF0, 0x80, 0xF0, 0x80, 0x80, // F
    ]
}

/// The font data as an executable table.
pub fn font_table() -> (r: Vec<u8>)
    ensures
        r@ == font_data(),
{
    let r: Vec<u8> = vec![
        0xF0u8, 0x90, 0x90, 0x90, 0xF0, // 0
        0x20, 0x60, 0x20, 0x20, 0x70, // 1
        0xF0, 0x10, 0xF0, 0x80, 0xF0, // 2
        0xF0, 0x10, 0xF0, 0x10, 0xF0, // 3
        0x90, 0x90, 0xF0, 0x10, 0x10, // 4
        0xF0, 0x80, 0xF0, 0x10, 0xF0, // 5
        0xF0, 0x80, 0xF0, 0x90, 0xF0, // 6
        0xF0, 0x10, 0x20, 0x40, 0x40, // 7
        0xF0, 0x90, 0xF0, 0x90, 0xF0, // 8
        0xF0, 0x90, 0xF0, 0x10, 0xF0, // 9
        0xF0, 0x90, 0xF0, 0x90, 0x90, // A
        0xE0, 0x90, 0xE0, 0x90, 0xE0, // B
        0xF0, 0x80, 0x80, 0x80, 0xF0, // C
        0xE0, 0x90, 0x90, 0x90, 0xE0, // D
        0xF0, 0x80, 0xF0, 0x80, 0xF0, // E
        0xF0, 0x80, 0xF0, 0x80, 0x80, // F
    ];
    proof {
        assert(r@ =~= font_data());
    }
    r
}

/// Error raised when a program cannot be loaded.
#[derive(Debug, Clone, Copy, PartialEq, Eq, Structural)]
pub enum MemoryError {
    /// The program does not fit between offset 512 and the end of memory.
    ProgramTooLarge,
}

/// The memory contents expected right after initialization: font data at
/// `[0, 80)`, zeroes at `[80, 512)`, the program verbatim at
/// `[512, 512 + len)`, and zeroes after it.
pub open spec fn mem_initialized(ram: Seq<u8>, program: Seq<u8>) -> bool {
    &&& ram.len() == MAX_SIZE
    &&& forall|k: int| 0 <= k < FONT_SIZE ==> ram[k] == font_data()[k]
    &&& forall|k: int| FONT_SIZE <= k < PROGRAM_START ==> ram[k] == 0u8
    &&& forall|k: int|
        0 <= k < program.len() ==> ram[PROGRAM_START + k] == program[k]
    &&& forall|k: int|
        PROGRAM_START + program.len() <= k < MAX_SIZE ==> ram[k] == 0u8
}

/// The RAM of a CHIP-8 machine.
#[derive(Debug)]
pub struct Memory {
    pub ram: Vec<u8>,
}

impl Memory {
    /// Structural invariant: the memory never resizes.
    pub open spec fn wf(&self) -> bool {
        self.ram@.len() == MAX_SIZE
    }

    /// Builds the memory for a program: a zero-filled 4096-byte buffer
    /// with the font data written at offset 0 and the program copied
    /// verbatim at offset 512. A program that would run past the end of
    /// memory is rejected rather than silently overrunning.
    pub fn new(program: &[u8]) -> (r: Result<Memory, MemoryError>)
        ensures
            match r {
                Ok(m) => {
                    &&& PROGRAM_START + program@.len() <= MAX_SIZE
                    &&& m.wf()
                    &&& mem_initialized(m.ram@, program@)
                },
                Err(e) => {
                    &&& PROGRAM_START + program@.len() > MAX_SIZE
                    &&& e == MemoryError::ProgramTooLarge
                },
            },
    {
        if program.len() > MAX_SIZE - PROGRAM_START {
            return Err(MemoryError::ProgramTooLarge);
        }
        let mut ram: Vec<u8> = Vec::new();
        let mut k: usize = 0;
        while k < MAX_SIZE
            invariant
                k <= MAX_SIZE,
                ram@.len() == k,
                forall|j: int| 0 <= j < k ==> ram@[j] == 0u8,
            decreases MAX_SIZE - k,
        {
            ram.push(0);
            k = k + 1;
        }
        let font = font_table();
        let mut k: usize = 0;
        while k < FONT_SIZE
            invariant
                k <= FONT_SIZE,
                ram@.len() == MAX_SIZE,
                font@ == font_data(),
                forall|j: int| 0 <= j < k ==> ram@[j] == font_data()[j],
                forall|j: int| k <= j < MAX_SIZE ==> ram@[j] == 0u8,
            decreases FONT_SIZE - k,
        {
            let b = *vstd::slice::slice_index_get(font.as_slice(), k);
            ram.set(k, b);
            k = k + 1;
        }
        let n = program.len();
        let mut k: usize = 0;
        while k < n
            invariant
                k <= n,
                n == program@.len(),
                PROGRAM_START + n <= MAX_SIZE,
                ram@.len() == MAX_SIZE,
                forall|j: int| 0 <= j < FONT_SIZE ==> ram@[j] == font_data()[j],
                forall|j: int| FONT_SIZE <= j < PROGRAM_START ==> ram@[j] == 0u8,
                forall|j: int| 0 <= j < k ==> ram@[PROGRAM_START + j] == program@[j],
                forall|j: int|
                    PROGRAM_START + k <= j < MAX_SIZE ==> ram@[j] == 0u8,
            decreases n - k,
        {
            let b = *vstd::slice::slice_index_get(program, k);
            ram.set(PROGRAM_START + k, b);
            k = k + 1;
        }
        Ok(Memory { ram })
    }

    /// Reads the byte at `addr`. Addresses outside memory are excluded:
    /// the machine treats them as fatal before reaching this point.
    pub fn read_byte(&self, addr: usize) -> (r: u8)
        requires
            self.wf(),
            addr < MAX_SIZE,
        ensures
            r == self.ram@[addr as int],
    {
        self.ram[addr]
    }

    /// Writes the byte at `addr`.
    pub fn write_byte(&mut self, addr: usize, val: u8)
        requires
            old(self).wf(),
            addr < MAX_SIZE,
        ensures
            final(self).wf(),
            final(self).ram@ == old(self).ram@.update(addr as int, val),
    {
        self.ram.set(addr, val);
    }
}

} // verus!
