//! What a debugger shows around the program counter: the opcode words of a
//! short window of memory.
use vstd::prelude::*;

use crate::memory::MEMORY_SIZE;

verus! {

/// Number of bytes the window covers.
pub const WINDOW_BYTES: usize = 40;

/// The first address of the window: ten bytes before `pc` (or 0), rounded
/// down to an even address.
pub open spec fn window_start(pc: int) -> int {
    let back = if pc >= 10 { pc - 10 } else { 0 };
    back - back % 2
}

/// The big-endian 16-bit word at `address`.
pub open spec fn word_at(memory: Seq<u8>, address: int) -> u16 {
    (memory[address] as int * 256 + memory[address + 1] as int) as u16
}

/// How many two-byte words the window holds: those of its twenty that start
/// below the last byte of memory.
pub open spec fn window_len(start: int) -> int {
    if start >= MEMORY_SIZE - 1 {
        0
    } else if (MEMORY_SIZE - start) / 2 < WINDOW_BYTES / 2 {
        (MEMORY_SIZE - start) / 2
    } else {
        WINDOW_BYTES as int / 2
    }
}

/// The addresses and opcode words of the window of memory around `pc`.
pub fn instruction_window(memory: &[u8; 4096], pc: usize) -> (lines: Vec<(usize, u16)>)
    requires
        window_start(pc as int) + WINDOW_BYTES <= usize::MAX,
    ensures
        lines@.len() == window_len(window_start(pc as int)),
        forall|i: int|
            0 <= i < lines@.len() ==> #[trigger] lines@[i] == (
                (window_start(pc as int) + 2 * i) as usize,
                word_at(memory@, window_start(pc as int) + 2 * i),
            ),
{
    let back = pc.saturating_sub(10);
    let start = back & !1usize;
    proof {
        assert(back & !1usize == back - back % 2) by (bit_vector);
    }
    let mut lines: Vec<(usize, u16)> = Vec::new();
    let mut addr = start;
    while addr < start + WINDOW_BYTES && addr < memory.len() - 1
        invariant
            start == window_start(pc as int),
            start % 2 == 0,
            start + WINDOW_BYTES <= usize::MAX,
            start <= addr <= start + WINDOW_BYTES + 1,
            (addr - start) % 2 == 0,
            addr > start ==> addr - 2 < MEMORY_SIZE - 1,
            lines@.len() == (addr - start) / 2,
            forall|i: int|
                0 <= i < lines@.len() ==> #[trigger] lines@[i] == (
                    (start + 2 * i) as usize,
                    word_at(memory@, start + 2 * i),
                ),
        decreases start + WINDOW_BYTES - addr,
    {
        let high = memory[addr] as u16;
        let low = memory[addr + 1] as u16;
        proof {
            assert((high << 8u16) | low == high * 256 + low) by (bit_vector)
                requires
                    high < 256,
                    low < 256,
            ;
        }
        lines.push((addr, (high << 8) | low));
        addr += 2;
    }
    lines
}

} // verus!
