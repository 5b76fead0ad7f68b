use vstd::prelude::*;

use crate::error::Chip8Error;
use crate::font::{font_bytes, FONT_SET, FONT_SET_SIZE};

verus! {

/// Size of the address space in bytes.
pub const MEMORY_SIZE: usize = 4096;

/// Address of the first byte of the built-in font.
pub const FONT_START_ADDR: usize = 0x050;

/// Bytes per font character.
pub const FONT_CHAR_SIZE: usize = 5;

/// Address at which ROMs are loaded and execution starts.
pub const ROM_START_ADDR: usize = 0x200;

/// The largest ROM that fits between `ROM_START_ADDR` and the end of memory.
pub const MAX_ROM_SIZE: usize = 0xE00;

/// `memory` with the built-in font copied to `FONT_START_ADDR`.
pub open spec fn with_font(memory: Seq<u8>) -> Seq<u8> {
    Seq::new(
        memory.len(),
        |i: int|
            if FONT_START_ADDR <= i < FONT_START_ADDR + FONT_SET_SIZE {
                font_bytes()[i - FONT_START_ADDR]
            } else {
                memory[i]
            },
    )
}

/// Memory of all zeros.
pub open spec fn zeroed_memory() -> Seq<u8> {
    Seq::new(MEMORY_SIZE as nat, |i: int| 0u8)
}

/// The memory of a freshly booted machine: zeros, with the font in place.
pub open spec fn boot_memory() -> Seq<u8> {
    with_font(zeroed_memory())
}

/// `memory` with `data` copied to the addresses starting at `address`.
pub open spec fn with_bytes(memory: Seq<u8>, address: int, data: Seq<u8>) -> Seq<u8> {
    Seq::new(
        memory.len(),
        |i: int|
            if address <= i < address + data.len() {
                data[i - address]
            } else {
                memory[i]
            },
    )
}

/// The 4 KiB memory space used by a CHIP-8 program.
pub struct Memory {
    content: [u8; 4096],
}

impl Default for Memory {
    fn default() -> (m: Self)
        ensures
            m@ == boot_memory(),
    {
        Self::new()
    }
}

impl Memory {
    /// Size of the address space in bytes.
    pub const MEMORY_SIZE: usize = 4096;

    /// Address of the first byte of the built-in font.
    pub const FONT_START_ADDR: usize = 0x050;

    /// Address of the last byte of the built-in font.
    pub const FONT_END_ADDR: usize = 0x09F;

    /// Bytes per font character.
    pub const FONT_CHAR_SIZE: usize = 5;

    /// Address at which ROMs are loaded and execution starts.
    pub const ROM_START_ADDR: usize = 0x200;

    /// The bytes of memory, by address.
    pub closed spec fn view(&self) -> Seq<u8> {
        self.content@
    }

    /// Every memory holds `MEMORY_SIZE` bytes.
    pub proof fn lemma_len(&self)
        ensures
            self@.len() == MEMORY_SIZE,
    {
    }

    /// Create memory and load the built-in hexadecimal font.
    pub fn new() -> (m: Self)
        ensures
            m@ == boot_memory(),
    {
        let mut memory = Memory { content: [0; 4096] };
        assert(memory@ =~= zeroed_memory());
        memory.load_font();
        memory
    }

    /// Read one byte from memory.
    pub fn read(&self, address: usize) -> (r: Result<u8, Chip8Error>)
        ensures
            address < MEMORY_SIZE ==> r == Ok::<u8, Chip8Error>(self@[address as int]),
            address >= MEMORY_SIZE ==> r == Err::<u8, Chip8Error>(
                Chip8Error::MemoryOutOfBounds { address },
            ),
    {
        if self.out_of_bounds(address) {
            Err(Chip8Error::MemoryOutOfBounds { address })
        } else {
            Ok(self.content[address])
        }
    }

    /// Write one byte to memory.
    pub fn write(&mut self, address: usize, data: u8) -> (r: Result<(), Chip8Error>)
        ensures
            address < MEMORY_SIZE ==> r == Ok::<(), Chip8Error>(()) && final(self)@ == old(self)@.update(
                address as int,
                data,
            ),
            address >= MEMORY_SIZE ==> r == Err::<(), Chip8Error>(
                Chip8Error::MemoryOutOfBounds { address },
            ) && final(self)@ == old(self)@,
    {
        if self.out_of_bounds(address) {
            Err(Chip8Error::MemoryOutOfBounds { address })
        } else {
            self.content[address] = data;
            Ok(())
        }
    }

    /// Read a contiguous range of memory.
    pub fn read_slice(&self, address: usize, length: usize) -> (r: Result<&[u8], Chip8Error>)
        requires
            address + length <= usize::MAX,
        ensures
            address + length <= MEMORY_SIZE ==> r is Ok && r->Ok_0@ == self@.subrange(
                address as int,
                address + length,
            ),
            address + length > MEMORY_SIZE ==> r == Err::<&[u8], Chip8Error>(
                Chip8Error::MemoryOutOfBounds { address },
            ),
    {
        let end = address + length;
        if end > Self::MEMORY_SIZE {
            Err(Chip8Error::MemoryOutOfBounds { address })
        } else {
            Ok(vstd::slice::slice_subrange(self.content.as_slice(), address, end))
        }
    }

    /// Write a contiguous range of memory.
    pub fn write_slice(&mut self, address: usize, data: &[u8], length: usize) -> (r: Result<
        (),
        Chip8Error,
    >)
        requires
            address + length <= usize::MAX,
            address + length <= MEMORY_SIZE ==> data@.len() == length,
        ensures
            address + length <= MEMORY_SIZE ==> r == Ok::<(), Chip8Error>(()) && final(self)@ == with_bytes(
                old(self)@,
                address as int,
                data@,
            ),
            address + length > MEMORY_SIZE ==> r == Err::<(), Chip8Error>(
                Chip8Error::MemoryOutOfBounds { address },
            ) && final(self)@ == old(self)@,
    {
        let end = address + length;
        if end > Self::MEMORY_SIZE {
            Err(Chip8Error::MemoryOutOfBounds { address })
        } else {
            self.copy_in(address, data);
            Ok(())
        }
    }

    /// Copy `data` into memory at `address`.
    fn copy_in(&mut self, address: usize, data: &[u8])
        requires
            address + data@.len() <= MEMORY_SIZE,
        ensures
            final(self)@ == with_bytes(old(self)@, address as int, data@),
    {
        let ghost before = self@;
        let mut i: usize = 0;
        while i < data.len()
            invariant
                0 <= i <= data@.len(),
                address + data@.len() <= MEMORY_SIZE,
                self@ == with_bytes(before, address as int, data@.subrange(0, i as int)),
                before.len() == MEMORY_SIZE,
            decreases data@.len() - i,
        {
            self.content[address + i] = data[i];
            i += 1;
            assert(self@ =~= with_bytes(before, address as int, data@.subrange(0, i as int)));
        }
        assert(data@.subrange(0, i as int) =~= data@);
    }

    /// Fill memory with 0's
    pub fn clear(&mut self)
        ensures
            final(self)@ == zeroed_memory(),
    {
        self.content = [0; 4096];
        assert(self@ =~= zeroed_memory());
    }

    /// Copy a ROM into program memory starting at `0x200`.
    pub fn load_rom(&mut self, rom: &[u8]) -> (r: Result<(), Chip8Error>)
        ensures
            rom@.len() <= MAX_ROM_SIZE ==> r == Ok::<(), Chip8Error>(()) && final(self)@ == with_bytes(
                old(self)@,
                ROM_START_ADDR as int,
                rom@,
            ),
            rom@.len() > MAX_ROM_SIZE ==> r == Err::<(), Chip8Error>(
                Chip8Error::RomTooLarge { size: rom@.len() as usize, max_size: MAX_ROM_SIZE },
            ) && final(self)@ == old(self)@,
    {
        let max_size = Self::MEMORY_SIZE - Self::ROM_START_ADDR;
        if rom.len() > max_size || self.out_of_bounds(Self::ROM_START_ADDR + rom.len() - 1) {
            Err(Chip8Error::RomTooLarge { size: rom.len(), max_size })
        } else {
            self.copy_in(Self::ROM_START_ADDR, rom);
            Ok(())
        }
    }

    /// Load the standard CHIP-8 hexadecimal font into memory.
    pub fn load_font(&mut self)
        ensures
            final(self)@ == with_font(old(self)@),
    {
        let font = FONT_SET;
        self.copy_in(Self::FONT_START_ADDR, font.as_slice());
        assert(with_bytes(old(self)@, FONT_START_ADDR as int, font_bytes()) =~= with_font(
            old(self)@,
        ));
    }

    /// Check whether an address is outside the 4 KiB memory space.
    pub fn out_of_bounds(&self, address: usize) -> (r: bool)
        ensures
            r == (address >= MEMORY_SIZE),
    {
        address >= Self::MEMORY_SIZE
    }

    /// Borrow the full memory space.
    pub fn get_content(&self) -> (content: &[u8; 4096])
        ensures
            content@ == self@,
    {
        &self.content
    }
}

} // verus!
