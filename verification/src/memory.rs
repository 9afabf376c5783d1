//! Main memory and the call stack, with the built-in font and program
//! loading.

use vstd::prelude::*;

verus! {

/// Size of the address space in bytes.
pub const RAM_SIZE: usize = 4096;

/// Number of return addresses the call stack holds.
pub const STACK_SIZE: usize = 16;

/// Address at which a program is loaded.
pub const STARTING_ADDRESS_ROM: usize = 0x200;

/// Address at which the font glyphs are stored.
pub const STARTING_ADDRESS_FONT: usize = 0x50;

/// Largest program that fits between the load address and the end of memory.
pub const MAX_ROM_SIZE: usize = 3584;

/// Bytes in one glyph: five rows, each the high nibble of a byte.
pub const GLYPH_SIZE: usize = 5;

/// Bytes in the whole font: sixteen glyphs.
pub const FONTSET_SIZE: usize = 80;

/// The glyphs of the hexadecimal digits 0 to F, five bytes each, in order.
pub const FONTSET: [u8; 80] = [
    0xF0, 0x90, 0x90, 0x90, 0xF0,
    0x20, 0x60, 0x20, 0x20, 0x70,
    0xF0, 0x10, 0xF0, 0x80, 0xF0,
    0xF0, 0x10, 0xF0, 0x10, 0xF0,
    0x90, 0x90, 0xF0, 0x10, 0x10,
    0xF0, 0x80, 0xF0, 0x10, 0xF0,
    0xF0, 0x80, 0xF0, 0x90, 0xF0,
    0xF0, 0x10, 0x20, 0x40, 0x40,
    0xF0, 0x90, 0xF0, 0x90, 0xF0,
    0xF0, 0x90, 0xF0, 0x10, 0xF0,
    0xF0, 0x90, 0xF0, 0x90, 0x90,
    0xE0, 0x90, 0xE0, 0x90, 0xE0,
    0xF0, 0x80, 0x80, 0x80, 0xF0,
    0xE0, 0x90, 0x90, 0x90, 0xE0,
    0xF0, 0x80, 0xF0, 0x80, 0xF0,
    0xF0, 0x80, 0xF0, 0x80, 0x80,
];

/// Why loading into memory failed.
#[derive(Clone, Copy, Debug, PartialEq, Eq)]
pub enum LoadError {
    /// The program has `size` bytes, more than fit after the load address.
    RomTooLarge { size: usize },
}

pub struct Memory {
    pub ram: Vec<u8>,
    pub stack: Vec<u16>,
}

/// Memory `ram` with the program `rom` copied in at the load address and
/// every other byte as it was.
pub open spec fn with_rom(ram: Seq<u8>, rom: Seq<u8>) -> Seq<u8> {
    Seq::new(
        RAM_SIZE as nat,
        |a: int|
            if STARTING_ADDRESS_ROM <= a < STARTING_ADDRESS_ROM + rom.len() {
                rom[a - STARTING_ADDRESS_ROM]
            } else {
                ram[a]
            },
    )
}

/// Memory `ram` with the font copied in at the font address and every other
/// byte as it was.
pub open spec fn with_fontset(ram: Seq<u8>) -> Seq<u8> {
    Seq::new(
        RAM_SIZE as nat,
        |a: int|
            if STARTING_ADDRESS_FONT <= a < STARTING_ADDRESS_FONT + FONTSET_SIZE {
                FONTSET[a - STARTING_ADDRESS_FONT]
            } else {
                ram[a]
            },
    )
}

impl Memory {
    /// Memory has its full size and the stack its full depth.
    pub open spec fn wf(&self) -> bool {
        &&& self.ram@.len() == RAM_SIZE
        &&& self.stack@.len() == STACK_SIZE
    }

    /// Zeroed memory and an empty stack.
    pub fn new() -> (memory: Self)
        ensures
            memory.wf(),
            memory.ram@ == Seq::new(RAM_SIZE as nat, |a: int| 0u8),
            memory.stack@ == Seq::new(STACK_SIZE as nat, |s: int| 0u16),
    {
        Self { ram: vec![0u8; 4096], stack: vec![0u16; 16] }
    }

    /// Whether the value is well formed, for callers that fill the public
    /// fields themselves.
    pub fn is_well_formed(&self) -> (ok: bool)
        ensures
            ok == self.wf(),
    {
        self.ram.len() == RAM_SIZE && self.stack.len() == STACK_SIZE
    }

    /// The byte at `address`.
    pub fn read(&self, address: usize) -> (byte: u8)
        requires
            self.wf(),
            address < RAM_SIZE,
        ensures
            byte == self.ram@[address as int],
    {
        self.ram[address]
    }

    /// Stores `byte` at `address` and touches nothing else.
    pub fn write(&mut self, address: usize, byte: u8)
        requires
            old(self).wf(),
            address < RAM_SIZE,
        ensures
            final(self).wf(),
            final(self).ram@ == old(self).ram@.update(address as int, byte),
            final(self).stack@ == old(self).stack@,
    {
        self.ram[address] = byte;
    }

    /// Copies a program to the load address. A program that does not fit is
    /// refused and memory stays as it was; nothing is ever cut short.
    pub fn load_rom(&mut self, rom: &[u8]) -> (loaded: Result<(), LoadError>)
        requires
            old(self).wf(),
        ensures
            final(self).wf(),
            final(self).stack@ == old(self).stack@,
            rom@.len() <= MAX_ROM_SIZE ==> loaded == Ok::<(), LoadError>(()) && final(self).ram@
                == with_rom(old(self).ram@, rom@),
            rom@.len() > MAX_ROM_SIZE ==> loaded == Err::<(), LoadError>(
                LoadError::RomTooLarge { size: rom.len() },
            ) && final(self).ram@ == old(self).ram@,
    {
        let size: usize = rom.len();
        if size > MAX_ROM_SIZE {
            return Err(LoadError::RomTooLarge { size });
        }
        let mut k: usize = 0;
        while k < size
            invariant
                k <= size,
                size == rom@.len(),
                size <= MAX_ROM_SIZE,
                self.wf(),
                self.stack@ == old(self).stack@,
                forall|a: int|
                    0 <= a < RAM_SIZE ==> self.ram@[a] == if STARTING_ADDRESS_ROM <= a
                        < STARTING_ADDRESS_ROM + k {
                        rom@[a - STARTING_ADDRESS_ROM]
                    } else {
                        old(self).ram@[a]
                    },
            decreases size - k,
        {
            self.ram[STARTING_ADDRESS_ROM + k] = rom[k];
            k += 1;
        }
        Ok(())
    }

    /// Copies the sixteen glyphs to the font address. Always succeeds, and
    /// loading twice leaves what loading once left.
    pub fn load_fontset(&mut self) -> (loaded: Result<(), LoadError>)
        requires
            old(self).wf(),
        ensures
            final(self).wf(),
            loaded == Ok::<(), LoadError>(()),
            final(self).ram@ == with_fontset(old(self).ram@),
            final(self).stack@ == old(self).stack@,
    {
        let mut k: usize = 0;
        while k < FONTSET_SIZE
            invariant
                k <= FONTSET_SIZE,
                self.wf(),
                self.stack@ == old(self).stack@,
                forall|a: int|
                    0 <= a < RAM_SIZE ==> self.ram@[a] == if STARTING_ADDRESS_FONT <= a
                        < STARTING_ADDRESS_FONT + k {
                        FONTSET[a - STARTING_ADDRESS_FONT]
                    } else {
                        old(self).ram@[a]
                    },
            decreases FONTSET_SIZE - k,
        {
            self.ram[STARTING_ADDRESS_FONT + k] = FONTSET[k];
            k += 1;
        }
        Ok(())
    }
}

/// Loading the font is idempotent: a second load changes nothing.
pub proof fn lemma_fontset_idempotent(ram: Seq<u8>)
    requires
        ram.len() == RAM_SIZE,
    ensures
        with_fontset(with_fontset(ram)) == with_fontset(ram),
{
}

/// A program and the font never overlap: loading one leaves the bytes of the
/// other in place, in either order.
pub proof fn lemma_rom_and_fontset_commute(ram: Seq<u8>, rom: Seq<u8>)
    requires
        ram.len() == RAM_SIZE,
        rom.len() <= MAX_ROM_SIZE,
    ensures
        with_rom(with_fontset(ram), rom) == with_fontset(with_rom(ram, rom)),
{
}

} // verus!
