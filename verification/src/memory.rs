//! The memory image: 4096 bytes holding the glyph table and the program.

use vstd::prelude::*;
use crate::constants::{FONT_DATA_START_ADDRESS, FONT_SET, FONT_SET_SIZE, MEMORY_SIZE, PROGRAM_START_ADDRESS};
use crate::error::Chip8Error;

verus! {

/// The image of a freshly built memory: the glyph table at its fixed address,
/// zero everywhere else.
pub open spec fn initial_image() -> Seq<u8> {
    Seq::new(
        MEMORY_SIZE as nat,
        |a: int|
            if FONT_DATA_START_ADDRESS <= a < FONT_DATA_START_ADDRESS + FONT_SET_SIZE {
                FONT_SET[a - FONT_DATA_START_ADDRESS]
            } else {
                0u8
            },
    )
}

/// Whether a program of `len` bytes fits between the program start and the end
/// of memory.
pub open spec fn rom_fits(len: nat) -> bool {
    PROGRAM_START_ADDRESS + len <= MEMORY_SIZE
}

/// The image `image` after `rom` has been copied to the program start.
pub open spec fn image_with_rom(image: Seq<u8>, rom: Seq<u8>) -> Seq<u8> {
    Seq::new(
        image.len(),
        |a: int|
            if PROGRAM_START_ADDRESS <= a < PROGRAM_START_ADDRESS + rom.len() {
                rom[a - PROGRAM_START_ADDRESS]
            } else {
                image[a]
            },
    )
}

/// Flat byte-addressable store.
pub struct Memory {
    memory: [u8; 4096],
}

impl View for Memory {
    type V = Seq<u8>;

    /// The bytes, by address.
    closed spec fn view(&self) -> Seq<u8> {
        self.memory@
    }
}

impl Memory {
    /// Every memory holds exactly `MEMORY_SIZE` bytes.
    pub proof fn lemma_size(&self)
        ensures
            self@.len() == MEMORY_SIZE,
    {
    }

    /// A memory holding the glyph table and no program.
    pub fn new() -> (memory: Self)
        ensures
            memory@ == initial_image(),
    {
        let mut memory = Self { memory: [0; 4096] };
        let base: usize = FONT_DATA_START_ADDRESS as usize;
        let mut i: usize = 0;
        while i < FONT_SET_SIZE
            invariant
                i <= FONT_SET_SIZE,
                base == FONT_DATA_START_ADDRESS,
                forall|a: int|
                    0 <= a < MEMORY_SIZE ==> memory.memory[a] == (if base <= a < base + i {
                        FONT_SET[a - base]
                    } else {
                        0u8
                    }),
            decreases FONT_SET_SIZE - i,
        {
            memory.memory[base + i] = FONT_SET[i];
            i += 1;
        }
        assert(memory@ =~= initial_image());
        memory
    }

    /// The byte at `address`, or `OutOfBounds` where `address` lies past the end.
    pub fn read_byte(&self, address: usize) -> (result: Result<u8, Chip8Error>)
        ensures
            address < MEMORY_SIZE ==> result == Ok::<u8, Chip8Error>(self@[address as int]),
            address >= MEMORY_SIZE ==> result == Err::<u8, Chip8Error>(Chip8Error::OutOfBounds),
    {
        if address < MEMORY_SIZE {
            Ok(self.memory[address])
        } else {
            Err(Chip8Error::OutOfBounds)
        }
    }

    /// Copies `data` to the program start. A program that does not fit is
    /// refused with `OutOfBounds`, and nothing is written.
    pub fn load_rom(&mut self, data: &[u8]) -> (result: Result<(), Chip8Error>)
        ensures
            rom_fits(data@.len()) ==> result == Ok::<(), Chip8Error>(()) && final(self)@
                == image_with_rom(old(self)@, data@),
            !rom_fits(data@.len()) ==> result == Err::<(), Chip8Error>(Chip8Error::OutOfBounds)
                && final(self)@ == old(self)@,
    {
        let start: usize = PROGRAM_START_ADDRESS as usize;
        if data.len() > MEMORY_SIZE - start {
            return Err(Chip8Error::OutOfBounds);
        }
        let mut i: usize = 0;
        while i < data.len()
            invariant
                i <= data.len(),
                start == PROGRAM_START_ADDRESS,
                start + data.len() <= MEMORY_SIZE,
                forall|a: int|
                    0 <= a < MEMORY_SIZE ==> self.memory[a] == (if start <= a < start + i {
                        data@[a - start]
                    } else {
                        old(self).memory[a]
                    }),
            decreases data.len() - i,
        {
            self.memory[start + i] = data[i];
            i += 1;
        }
        assert(self@ =~= image_with_rom(old(self)@, data@));
        Ok(())
    }

    /// Stores `byte` at `address`, or refuses with `OutOfBounds` where `address`
    /// lies past the end.
    pub fn write_byte(&mut self, address: usize, byte: u8) -> (result: Result<(), Chip8Error>)
        ensures
            address < MEMORY_SIZE ==> result == Ok::<(), Chip8Error>(()) && final(self)@ == old(
                self,
            )@.update(address as int, byte),
            address >= MEMORY_SIZE ==> result == Err::<(), Chip8Error>(Chip8Error::OutOfBounds)
                && final(self)@ == old(self)@,
    {
        if address < MEMORY_SIZE {
            self.memory[address] = byte;
            Ok(())
        } else {
            Err(Chip8Error::OutOfBounds)
        }
    }
}

} // verus!
