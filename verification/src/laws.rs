//! Properties of the machine that span several operations, proved over the
//! model that the operations' contracts are stated in.
use vstd::prelude::*;

use crate::chip8::{fresh_state, reset_model};
use crate::display::{
    blank_pixels, drawn_pixels, on_screen, source_col, source_row, sprite_collides, sprite_covers,
    well_shaped,
};
use crate::error::Chip8Error;
use crate::font::{font_bytes, FONT_SET_SIZE};
use crate::keypad::{first_pressed, NUM_KEYS};
use crate::machine::{
    fetch_model, run_steps, step_model, execute_model, load_registers, store_registers, ticks, MachineState, NUM_REGS, STACK_SIZE,
    VF,
};
use crate::memory::{
    boot_memory, with_bytes, FONT_CHAR_SIZE, FONT_START_ADDR, MAX_ROM_SIZE, MEMORY_SIZE,
    ROM_START_ADDR,
};
use crate::opcode::{spec_decode, Instruction};

verus! {

/// Reading an address after writing it gives the written byte; every other
/// address keeps its byte.
pub proof fn law_read_after_write(memory: Seq<u8>, address: int, data: u8, other: int)
    requires
        memory.len() == MEMORY_SIZE,
        0 <= address < MEMORY_SIZE,
        0 <= other < MEMORY_SIZE,
        other != address,
    ensures
        memory.update(address, data)[address] == data,
        memory.update(address, data)[other] == memory[other],
{
}

/// Reading back a range that was just written gives the written bytes, and
/// the bytes outside the range are unchanged.
pub proof fn law_read_slice_after_write_slice(memory: Seq<u8>, address: int, data: Seq<u8>)
    requires
        memory.len() == MEMORY_SIZE,
        0 <= address,
        address + data.len() <= MEMORY_SIZE,
    ensures
        with_bytes(memory, address, data).subrange(address, address + data.len()) == data,
        forall|i: int|
            0 <= i < MEMORY_SIZE && !(address <= i < address + data.len()) ==> #[trigger] with_bytes(
                memory,
                address,
                data,
            )[i] == memory[i],
{
    assert(with_bytes(memory, address, data).subrange(address, address + data.len()) =~= data);
}

/// Drawing the same sprite twice at the same place restores the framebuffer.
pub proof fn law_draw_twice_restores(
    pixels: Seq<Seq<bool>>,
    x0: int,
    y0: int,
    sprite: Seq<u8>,
    wrap: bool,
)
    requires
        well_shaped(pixels),
    ensures
        drawn_pixels(drawn_pixels(pixels, x0, y0, sprite, wrap), x0, y0, sprite, wrap) == pixels,
{
    let twice = drawn_pixels(drawn_pixels(pixels, x0, y0, sprite, wrap), x0, y0, sprite, wrap);
    assert forall|r: int| 0 <= r < pixels.len() implies #[trigger] twice[r] =~= pixels[r] by {}
    assert(twice =~= pixels);
}

/// On a blank framebuffer a sprite never collides; drawn a second time, it
/// collides exactly when it lit at least one pixel.
pub proof fn law_second_draw_collides(x0: int, y0: int, sprite: Seq<u8>, wrap: bool)
    ensures
        !sprite_collides(crate::display::blank_pixels(), x0, y0, sprite, wrap),
        sprite_collides(
            drawn_pixels(crate::display::blank_pixels(), x0, y0, sprite, wrap),
            x0,
            y0,
            sprite,
            wrap,
        ) <==> exists|r: int, c: int| on_screen(r, c) && #[trigger] sprite_covers(x0, y0, sprite, wrap, r, c),
{
    let blank = crate::display::blank_pixels();
    let once = drawn_pixels(blank, x0, y0, sprite, wrap);
    if exists|r: int, c: int| on_screen(r, c) && #[trigger] sprite_covers(x0, y0, sprite, wrap, r, c) {
        let (r, c) = choose|r: int, c: int| on_screen(r, c) && #[trigger] sprite_covers(x0, y0, sprite, wrap, r, c);
        assert(once[r][c]);
    }
}

/// Every instruction other than `FX15` and `FX18` leaves the timers alone:
/// only `tick_timers` counts them down.
pub proof fn law_execute_keeps_timers(m: MachineState, ins: Instruction, random: u8)
    ensures
        !(ins is Sdelay) ==> execute_model(m, ins, random).0.delay_timer == m.delay_timer,
        !(ins is Ssound) ==> execute_model(m, ins, random).0.sound_timer == m.sound_timer,
{
}

/// Whether `m` has reported every change of the framebuffer since the
/// dirty flag was last taken, when the pixels were `seen`: either the flag is
/// set or the pixels are still `seen`.
pub open spec fn reports_changes_since(m: MachineState, seen: Seq<Seq<bool>>) -> bool {
    m.dirty || m.pixels == seen
}

/// Executing an instruction never hides a change of the framebuffer: an
/// instruction that changes the pixels sets the dirty flag.
pub proof fn law_execute_reports_changes(
    m: MachineState,
    ins: Instruction,
    random: u8,
    seen: Seq<Seq<bool>>,
)
    requires
        reports_changes_since(m, seen),
    ensures
        execute_model(m, ins, random).0.pixels != m.pixels ==> execute_model(m, ins, random).0.dirty,
        reports_changes_since(execute_model(m, ins, random).0, seen),
{
}

/// Taking the dirty flag answers whether the pixels changed since they were
/// last `seen`; afterwards the flag is clear, a second take answers `false`,
/// and the pixels now on screen are the ones seen. A reset always reports.
pub proof fn law_take_dirty_reports_changes(m: MachineState, seen: Seq<Seq<bool>>)
    requires
        reports_changes_since(m, seen),
    ensures
        m.pixels != seen ==> m.dirty,
        ({
            let taken = MachineState { dirty: false, ..m };
            &&& taken.pixels == m.pixels
            &&& !taken.dirty
            &&& reports_changes_since(taken, m.pixels)
        }),
        reports_changes_since(reset_model(m), seen),
{
}

/// A fetch-decode-execute step never hides a change of the framebuffer.
pub proof fn law_step_reports_changes(m: MachineState, random: u8, seen: Seq<Seq<bool>>)
    requires
        reports_changes_since(m, seen),
    ensures
        reports_changes_since(step_model(m, random).0, seen),
{
    if let Ok((fetched, opcode)) = fetch_model(m) {
        law_execute_reports_changes(fetched, spec_decode(opcode), random, seen);
    }
}

/// Any run of steps and timer ticks, as an update of the emulator makes,
/// never hides a change of the framebuffer: the dirty flag taken afterwards
/// is set whenever the pixels differ from those seen when it was last taken.
pub proof fn law_runs_report_changes(
    m: MachineState,
    randoms: Seq<u8>,
    n: nat,
    seen: Seq<Seq<bool>>,
)
    requires
        reports_changes_since(m, seen),
    ensures
        reports_changes_since(run_steps(m, randoms).0, seen),
        reports_changes_since(ticks(run_steps(m, randoms).0, n), seen),
    decreases randoms.len(),
{
    if randoms.len() > 0 {
        law_runs_report_changes(m, randoms.drop_last(), 0, seen);
        let (before, result, count) = run_steps(m, randoms.drop_last());
        if result is Ok {
            law_step_reports_changes(before, randoms.last(), seen);
        }
    }
    law_ticks_count_down(run_steps(m, randoms).0, n);
}

/// With `key_waits_for_release`, `FX0A` stores a key only once the key it
/// saw pressed has been released, and executes again until then; without
/// it, it stores the lowest-numbered pressed key at once.
pub proof fn law_key_wait(m: MachineState, x: usize)
    requires
        m.wf(),
        x < NUM_REGS,
    ensures
        ({
            let after = execute_model(m, Instruction::Key(x), 0).0;
            &&& after.pc != m.pc - 2 ==> after.registers[x as int] == (if m.config.key_waits_for_release {
                m.awaited_key->Some_0 as u8
            } else {
                first_pressed(m.keys)->Some_0 as u8
            })
            &&& m.config.key_waits_for_release && after.pc != m.pc - 2 ==> m.awaited_key is Some
                && !m.keys[m.awaited_key->Some_0 as int]
            &&& !m.config.key_waits_for_release ==> (after.pc != m.pc - 2 <==> first_pressed(m.keys) is Some)
        }),
{
}

/// A fetch-decode-execute step changes the delay timer only when it
/// executes `FX15` and the sound timer only when it executes `FX18`.
pub proof fn law_step_keeps_timers(m: MachineState, random: u8)
    ensures
        (match fetch_model(m) {
            Ok((_, opcode)) => spec_decode(opcode) is Sdelay,
            Err(_) => false,
        }) || step_model(m, random).0.delay_timer == m.delay_timer,
        (match fetch_model(m) {
            Ok((_, opcode)) => spec_decode(opcode) is Ssound,
            Err(_) => false,
        }) || step_model(m, random).0.sound_timer == m.sound_timer,
{
    if let Ok((fetched, opcode)) = fetch_model(m) {
        law_execute_keeps_timers(fetched, spec_decode(opcode), random);
    }
}

/// Loading a ROM leaves the built-in font in place: the font sits below
/// `ROM_START_ADDR`.
pub proof fn law_load_rom_keeps_font(memory: Seq<u8>, rom: Seq<u8>)
    requires
        memory.len() == MEMORY_SIZE,
        rom.len() <= MAX_ROM_SIZE,
    ensures
        with_bytes(memory, ROM_START_ADDR as int, rom).subrange(
            FONT_START_ADDR as int,
            FONT_START_ADDR + FONT_SET_SIZE,
        ) == memory.subrange(FONT_START_ADDR as int, FONT_START_ADDR + FONT_SET_SIZE),
        with_bytes(memory, ROM_START_ADDR as int, rom).subrange(
            ROM_START_ADDR as int,
            ROM_START_ADDR + rom.len(),
        ) == rom,
{
    assert(with_bytes(memory, ROM_START_ADDR as int, rom).subrange(
        FONT_START_ADDR as int,
        FONT_START_ADDR + FONT_SET_SIZE,
    ) =~= memory.subrange(FONT_START_ADDR as int, FONT_START_ADDR + FONT_SET_SIZE));
    assert(with_bytes(memory, ROM_START_ADDR as int, rom).subrange(
        ROM_START_ADDR as int,
        ROM_START_ADDR + rom.len(),
    ) =~= rom);
}

/// A pressed key reads as pressed until it is released; pressing or
/// releasing one key leaves the others as they were.
pub proof fn law_press_then_release(keys: Seq<bool>, key: int, other: int)
    requires
        keys.len() == NUM_KEYS,
        0 <= key < NUM_KEYS,
        0 <= other < NUM_KEYS,
        other != key,
    ensures
        keys.update(key, true)[key],
        !keys.update(key, true).update(key, false)[key],
        keys.update(key, true)[other] == keys[other],
        keys.update(key, false)[other] == keys[other],
{
}

/// After `n` ticks each timer has counted down by `n` and stopped at zero;
/// nothing else changes. The machine stops beeping once `n` reaches the
/// sound timer.
pub proof fn law_ticks_count_down(m: MachineState, n: nat)
    ensures
        ticks(m, n).delay_timer == (if n >= m.delay_timer { 0 } else { m.delay_timer - n }),
        ticks(m, n).sound_timer == (if n >= m.sound_timer { 0 } else { m.sound_timer - n }),
        ticks(m, n) == (MachineState {
            delay_timer: ticks(m, n).delay_timer,
            sound_timer: ticks(m, n).sound_timer,
            ..m
        }),
    decreases n,
{
    if n > 0 {
        law_ticks_count_down(m, (n - 1) as nat);
    }
}

/// A subroutine call followed by a return comes back to the instruction
/// after the call, with the stack depth restored.
pub proof fn law_call_then_return(m: MachineState, nnn: usize)
    requires
        m.wf(),
        m.sp < STACK_SIZE,
        m.pc <= 0xFFFF,
    ensures
        execute_model(m, Instruction::Jsr(nnn), 0).1 is Ok,
        execute_model(execute_model(m, Instruction::Jsr(nnn), 0).0, Instruction::Rts, 0).1 is Ok,
        execute_model(execute_model(m, Instruction::Jsr(nnn), 0).0, Instruction::Rts, 0).0.pc == m.pc,
        execute_model(execute_model(m, Instruction::Jsr(nnn), 0).0, Instruction::Rts, 0).0.sp == m.sp,
{
    let called = execute_model(m, Instruction::Jsr(nnn), 0).0;
    assert(called.stack[m.sp] == m.pc as u16);
}

/// A call made with the stack full fails with `StackOverflow` and changes
/// nothing; a return with the stack empty fails with `StackUnderflow` and
/// changes nothing.
pub proof fn law_stack_bounds(m: MachineState, nnn: usize)
    ensures
        m.sp >= STACK_SIZE ==> execute_model(m, Instruction::Jsr(nnn), 0) == (m, Err::<(), Chip8Error>(Chip8Error::StackOverflow)),
        m.sp == 0 ==> execute_model(m, Instruction::Rts, 0) == (m, Err::<(), Chip8Error>(Chip8Error::StackUnderflow)),
{
}

/// Storing `V0`..`VX` and loading them back from the same place restores the
/// registers, when the range fits in memory and `I` is not incremented.
pub proof fn law_store_then_load(m: MachineState, x: int)
    requires
        m.wf(),
        0 <= x < NUM_REGS,
        m.index + x + 1 <= MEMORY_SIZE,
        !m.config.str_ldr_increments_index,
    ensures
        store_registers(m, x).1 is Ok,
        load_registers(store_registers(m, x).0, x).1 is Ok,
        load_registers(store_registers(m, x).0, x).0.registers == m.registers,
        load_registers(store_registers(m, x).0, x).0.index == m.index,
{
    let stored = store_registers(m, x).0;
    let loaded = load_registers(stored, x).0;
    assert(loaded.registers =~= m.registers);
}

/// `FX1E` always leaves `I` within the 12-bit address space, and sets `VF`
/// only when it wrapped and the configuration asks for it.
pub proof fn law_add_to_index_stays_in_range(m: MachineState, x: usize)
    requires
        m.wf(),
        x < NUM_REGS,
    ensures
        0 <= execute_model(m, Instruction::Adi(x), 0).0.index <= 0xFFF,
        execute_model(m, Instruction::Adi(x), 0).0.registers[VF as int] != m.registers[VF as int]
            ==> m.config.adi_flags_overflow && m.index + m.registers[x as int] > 0xFFF,
{
}

/// After `FX29` the five bytes at `I` are the font glyph of the low nibble
/// of `VX`, in a memory whose font area holds the built-in font.
pub proof fn law_font_points_at_glyph(m: MachineState, x: usize, i: int)
    requires
        m.wf(),
        x < NUM_REGS,
        m.memory.subrange(FONT_START_ADDR as int, FONT_START_ADDR + FONT_SET_SIZE) == font_bytes(),
        0 <= i < FONT_CHAR_SIZE,
    ensures
        ({
            let after = execute_model(m, Instruction::Font(x), 0).0;
            after.memory[after.index + i] == font_bytes()[(m.registers[x as int] % 16) * 5 + i]
        }),
{
    let d = (m.registers[x as int] % 16) as int;
    assert(m.memory.subrange(FONT_START_ADDR as int, FONT_START_ADDR + FONT_SET_SIZE)[d * 5 + i]
        == m.memory[FONT_START_ADDR + d * 5 + i]);
}

/// `8XY4` leaves the sum in `VX` and the carry in `VF`: together they make
/// the full sum (for `X` other than `F`).
pub proof fn law_add_carries(m: MachineState, x: usize, y: usize)
    requires
        m.wf(),
        x < NUM_REGS,
        y < NUM_REGS,
        x != VF,
    ensures
        ({
            let after = execute_model(m, Instruction::Add(x, y), 0).0;
            after.registers[x as int] + 256 * after.registers[VF as int] == m.registers[x as int]
                + m.registers[y as int]
        }),
{
}

/// `8XY5` leaves the difference in `VX` and `VF` set when no borrow was
/// needed (for `X` other than `F`).
pub proof fn law_sub_borrows(m: MachineState, x: usize, y: usize)
    requires
        m.wf(),
        x < NUM_REGS,
        y < NUM_REGS,
        x != VF,
    ensures
        ({
            let after = execute_model(m, Instruction::Sub(x, y), 0).0;
            after.registers[x as int] == m.registers[x as int] - m.registers[y as int] + 256 * (1
                - after.registers[VF as int])
        }),
{
}

/// `8XYE` loses no bit: the doubled source is the new `VX` plus 256 times
/// `VF`, so `VF` receives the bit shifted out at the top (for `X` other
/// than `F`). The source is `VY` when `shift_uses_vy` is set, else `VX`.
pub proof fn law_shift_left_keeps_top_bit(m: MachineState, x: usize, y: usize)
    requires
        m.wf(),
        x < NUM_REGS,
        y < NUM_REGS,
        x != VF,
    ensures
        ({
            let source = if m.config.shift_uses_vy { m.registers[y as int] } else { m.registers[x as int] };
            let (after, r) = execute_model(m, Instruction::Shl(x, y), 0);
            &&& r is Ok
            &&& after.registers[VF as int] <= 1
            &&& 2 * source == after.registers[x as int] + 256 * after.registers[VF as int]
        }),
{
}

/// `8XY6` loses no bit: the source is twice the new `VX` plus `VF`, so `VF`
/// receives the bit shifted out at the bottom (for `X` other than `F`).
pub proof fn law_shift_right_keeps_low_bit(m: MachineState, x: usize, y: usize)
    requires
        m.wf(),
        x < NUM_REGS,
        y < NUM_REGS,
        x != VF,
    ensures
        ({
            let source = if m.config.shift_uses_vy { m.registers[y as int] } else { m.registers[x as int] };
            let (after, r) = execute_model(m, Instruction::Shr(x, y), 0);
            &&& r is Ok
            &&& after.registers[VF as int] <= 1
            &&& source == 2 * after.registers[x as int] + after.registers[VF as int]
        }),
{
}

/// `8XY7` leaves `VY - VX` in `VX` and `VF` set when no borrow was needed
/// (for `X` other than `F`).
pub proof fn law_reverse_sub_borrows(m: MachineState, x: usize, y: usize)
    requires
        m.wf(),
        x < NUM_REGS,
        y < NUM_REGS,
        x != VF,
    ensures
        ({
            let after = execute_model(m, Instruction::Rsb(x, y), 0).0;
            &&& after.registers[VF as int] <= 1
            &&& after.registers[x as int] == m.registers[y as int] - m.registers[x as int] + 256 * (1
                - after.registers[VF as int])
        }),
{
}

/// `FX33` writes the three decimal digits of `VX` at `I`, `I + 1`, `I + 2`:
/// each is below 10 and together they spell `VX`; the rest of memory and
/// the registers stay as they were. Where the three bytes do not fit in
/// memory it fails and changes nothing.
pub proof fn law_bcd_writes_decimal_digits(m: MachineState, x: usize, other: int)
    requires
        m.wf(),
        x < NUM_REGS,
        0 <= other < MEMORY_SIZE,
    ensures
        ({
            let i = m.index;
            let (after, r) = execute_model(m, Instruction::Bcd(x), 0);
            &&& i + 3 <= MEMORY_SIZE ==> {
                &&& r is Ok
                &&& after.memory[i] < 10
                &&& after.memory[i + 1] < 10
                &&& after.memory[i + 2] < 10
                &&& 100 * after.memory[i] + 10 * after.memory[i + 1] + after.memory[i + 2]
                    == m.registers[x as int]
                &&& !(i <= other < i + 3) ==> after.memory[other] == m.memory[other]
                &&& after.registers == m.registers
                &&& after.index == m.index
            }
            &&& i + 3 > MEMORY_SIZE ==> after == m && r == Err::<(), Chip8Error>(
                Chip8Error::MemoryOutOfBounds { address: i as usize },
            )
        }),
{
}

/// `EX9E` and `EXA1` test the key whose number is the value in `VX`:
/// `EX9E` skips exactly when that key is pressed, `EXA1` exactly when it is
/// not; nothing else changes. A value of 16 or more names no key and fails.
pub proof fn law_key_skips_test_the_key_in_vx(m: MachineState, x: usize)
    requires
        m.wf(),
        x < NUM_REGS,
        m.pc + 2 <= usize::MAX,
    ensures
        ({
            let key = m.registers[x as int];
            let (pressed, rp) = execute_model(m, Instruction::Skpr(x), 0);
            let (released, ru) = execute_model(m, Instruction::Skup(x), 0);
            &&& key < NUM_KEYS ==> {
                &&& rp is Ok && ru is Ok
                &&& pressed == m.with_pc(if m.keys[key as int] { m.pc + 2 } else { m.pc })
                &&& released == m.with_pc(if m.keys[key as int] { m.pc } else { m.pc + 2 })
            }
            &&& key >= NUM_KEYS ==> {
                &&& pressed == m && released == m
                &&& rp == Err::<(), Chip8Error>(Chip8Error::KeypadOutOfBounds { key: key as usize })
                &&& ru == Err::<(), Chip8Error>(Chip8Error::KeypadOutOfBounds { key: key as usize })
            }
        }),
{
}

/// On a blank screen, `DXYN` with the `N` bytes at `I` inside memory draws
/// all `N` of them: wherever the sprite is not clipped, the pixel at row
/// `VY + i`, column `VX + b` (the start taken modulo the screen size) is lit
/// exactly when bit `b`, counted from the most significant, of the byte at
/// `I + i` is set. Nothing collides, so `VF` is 0, and without wrapping no
/// pixel outside the sprite is lit.
pub proof fn law_sprite_draws_every_row(m: MachineState, x: usize, y: usize, n: u8)
    requires
        m.wf(),
        x < NUM_REGS,
        y < NUM_REGS,
        n < 16,
        m.pixels == blank_pixels(),
        m.index + n <= MEMORY_SIZE,
    ensures
        ({
            let x0 = (m.registers[x as int] as int) % 64;
            let y0 = (m.registers[y as int] as int) % 32;
            let (after, r) = execute_model(m, Instruction::Sprite(x, y, n), 0);
            &&& r is Ok
            &&& after.registers[VF as int] == 0
            &&& after.dirty
            &&& forall|row: int, col: int|
                on_screen(row, col) && y0 <= row < y0 + n && x0 <= col < x0 + 8 ==> #[trigger] after.pixels[row][col]
                    == ((m.memory[m.index + (row - y0)] >> ((7 - (col - x0)) as u8)) & 1u8 == 1u8)
            &&& !m.config.sprites_wrap_at_edge ==> forall|row: int, col: int|
                on_screen(row, col) && !(y0 <= row < y0 + n && x0 <= col < x0 + 8) ==> !#[trigger] after.pixels[row][col]
            &&& m.config.sprites_wrap_at_edge ==> forall|row: int, col: int|
                on_screen(row, col) ==> #[trigger] after.pixels[row][col] == {
                    let i = (row - y0) % 32;
                    let b = (col - x0) % 64;
                    i < n && b < 8 && (m.memory[m.index + i] >> ((7 - b) as u8)) & 1u8 == 1u8
                }
        }),
{
    let x0 = (m.registers[x as int] as int) % 64;
    let y0 = (m.registers[y as int] as int) % 32;
    let sprite = m.memory.subrange(m.index, m.index + n);
    let wrap = m.config.sprites_wrap_at_edge;
    let after = execute_model(m, Instruction::Sprite(x, y, n), 0).0;
    assert(!sprite_collides(m.pixels, x0, y0, sprite, wrap));
    assert forall|row: int, col: int|
        on_screen(row, col) && y0 <= row < y0 + n && x0 <= col < x0 + 8 implies #[trigger] after.pixels[row][col]
            == ((m.memory[m.index + (row - y0)] >> ((7 - (col - x0)) as u8)) & 1u8 == 1u8) by {
        let byte = m.memory[m.index + (row - y0)];
        let shift = (7 - (col - x0)) as u8;
        assert(sprite[row - y0] == byte);
        vstd::bits::lemma_u8_shr_is_div(byte, shift);
        let shifted = byte >> shift;
        assert((shifted & 1u8 == 1u8) == (shifted % 2 == 1)) by (bit_vector);
        assert(source_row(y0, row, wrap) == row - y0);
        assert(source_col(x0, col, wrap) == col - x0);
    }
    if wrap {
        assert forall|row: int, col: int| on_screen(row, col) implies #[trigger] after.pixels[row][col] == {
            let i = (row - y0) % 32;
            let b = (col - x0) % 64;
            i < n && b < 8 && (m.memory[m.index + i] >> ((7 - b) as u8)) & 1u8 == 1u8
        } by {
            let i = (row - y0) % 32;
            let b = (col - x0) % 64;
            if i < n && b < 8 {
                let byte = m.memory[m.index + i];
                let shift = (7 - b) as u8;
                assert(sprite[i] == byte);
                vstd::bits::lemma_u8_shr_is_div(byte, shift);
                let shifted = byte >> shift;
                assert((shifted & 1u8 == 1u8) == (shifted % 2 == 1)) by (bit_vector);
            }
        }
    }
}

/// The four compare-and-skip instructions skip the next instruction
/// (advance `pc` by 2) exactly when their comparison holds, and change
/// nothing else: `3XNN` when `VX == NN`, `4XNN` when `VX != NN`, `5XY0`
/// when `VX == VY`, `9XY0` when `VX != VY`.
pub proof fn law_compare_skips(m: MachineState, x: usize, y: usize, nn: u8)
    requires
        m.wf(),
        x < NUM_REGS,
        y < NUM_REGS,
        m.pc + 2 <= usize::MAX,
    ensures
        ({
            let (vx, vy) = (m.registers[x as int], m.registers[y as int]);
            &&& execute_model(m, Instruction::SkeqConst(x, nn), 0) == (m.with_pc(
                if vx == nn { m.pc + 2 } else { m.pc },
            ), Ok::<(), Chip8Error>(()))
            &&& execute_model(m, Instruction::SkneConst(x, nn), 0) == (m.with_pc(
                if vx != nn { m.pc + 2 } else { m.pc },
            ), Ok::<(), Chip8Error>(()))
            &&& execute_model(m, Instruction::Skeq(x, y), 0) == (m.with_pc(
                if vx == vy { m.pc + 2 } else { m.pc },
            ), Ok::<(), Chip8Error>(()))
            &&& execute_model(m, Instruction::Skne(x, y), 0) == (m.with_pc(
                if vx != vy { m.pc + 2 } else { m.pc },
            ), Ok::<(), Chip8Error>(()))
        }),
{
}

/// `2NNN` jumps to `NNN` and pushes the address it would have continued at
/// (the current `pc`) on top of the stack; `00EE` jumps back to the address
/// on top of the stack and pops it; `1NNN` jumps to `NNN`.
pub proof fn law_jumps_and_calls(m: MachineState, nnn: usize)
    requires
        m.wf(),
        nnn < 0x1000,
    ensures
        execute_model(m, Instruction::Jmp(nnn), 0).0 == m.with_pc(nnn as int),
        m.sp < STACK_SIZE && m.pc <= 0xFFFF ==> {
            let (after, r) = execute_model(m, Instruction::Jsr(nnn), 0);
            &&& r is Ok
            &&& after.pc == nnn
            &&& after.sp == m.sp + 1
            &&& after.stack[m.sp] == m.pc
            &&& forall|i: int| 0 <= i < STACK_SIZE && i != m.sp ==> after.stack[i] == m.stack[i]
        },
        m.sp > 0 ==> {
            let (after, r) = execute_model(m, Instruction::Rts, 0);
            &&& r is Ok
            &&& after.pc == m.stack[m.sp - 1]
            &&& after.sp == m.sp - 1
            &&& after.stack == m.stack
        },
{
}

/// `BNNN` jumps to `NNN` plus `V0`, or plus `VX` (`X` the top nibble of
/// `NNN`) when `jmi_uses_vx` is set.
pub proof fn law_jump_with_offset(m: MachineState, nnn: usize)
    requires
        m.wf(),
        nnn < 0x1000,
    ensures
        execute_model(m, Instruction::Jmi(nnn), 0) == (m.with_pc(
            nnn + if m.config.jmi_uses_vx { m.registers[(nnn / 0x100) as int] } else { m.registers[0] },
        ), Ok::<(), Chip8Error>(())),
{
}

/// `7XNN` adds `NN` to `VX` modulo 256 and leaves `VF` alone; `6XNN` and
/// `8XY0` copy a value into `VX`.
pub proof fn law_register_loads(m: MachineState, x: usize, y: usize, nn: u8)
    requires
        m.wf(),
        x < NUM_REGS,
        y < NUM_REGS,
    ensures
        ({
            let added = execute_model(m, Instruction::AddConst(x, nn), 0).0;
            &&& added.registers[x as int] + 256 * (if m.registers[x as int] + nn > 255 { 1int } else { 0 })
                == m.registers[x as int] + nn
            &&& forall|i: int| 0 <= i < NUM_REGS && i != x ==> added.registers[i] == m.registers[i]
        }),
        execute_model(m, Instruction::MovConst(x, nn), 0).0.registers[x as int] == nn,
        execute_model(m, Instruction::Mov(x, y), 0).0.registers[x as int] == m.registers[y as int],
{
}

/// `8XY1`, `8XY2` and `8XY3` combine `VX` and `VY` bit by bit: bit `k` of the
/// new `VX` is set when bit `k` is set in either, in both, or in exactly one.
pub proof fn law_bitwise_ops_work_bit_by_bit(m: MachineState, x: usize, y: usize, k: u8)
    requires
        m.wf(),
        x < NUM_REGS,
        y < NUM_REGS,
        k < 8,
    ensures
        ({
            let a = m.registers[x as int];
            let b = m.registers[y as int];
            let or = execute_model(m, Instruction::Or(x, y), 0).0.registers[x as int];
            let and = execute_model(m, Instruction::And(x, y), 0).0.registers[x as int];
            let xor = execute_model(m, Instruction::Xor(x, y), 0).0.registers[x as int];
            &&& ((or >> k) & 1 == 1) == ((a >> k) & 1 == 1 || (b >> k) & 1 == 1)
            &&& ((and >> k) & 1 == 1) == ((a >> k) & 1 == 1 && (b >> k) & 1 == 1)
            &&& ((xor >> k) & 1 == 1) == (((a >> k) & 1 == 1) != ((b >> k) & 1 == 1))
        }),
{
    let a = m.registers[x as int];
    let b = m.registers[y as int];
    assert(((a | b) >> k) & 1 == 1 <==> ((a >> k) & 1 == 1 || (b >> k) & 1 == 1)) by (bit_vector)
        requires k < 8;
    assert(((a & b) >> k) & 1 == 1 <==> ((a >> k) & 1 == 1 && (b >> k) & 1 == 1)) by (bit_vector)
        requires k < 8;
    assert(((a ^ b) >> k) & 1 == 1 <==> (((a >> k) & 1 == 1) != ((b >> k) & 1 == 1))) by (bit_vector)
        requires k < 8;
}

/// `CXNN` keeps in `VX` only bits that are set in `NN`: bit `k` of the new
/// `VX` is set exactly when it is set in both `NN` and the drawn byte.
pub proof fn law_random_is_masked(m: MachineState, x: usize, nn: u8, random: u8, k: u8)
    requires
        m.wf(),
        x < NUM_REGS,
        k < 8,
    ensures
        ({
            let v = execute_model(m, Instruction::Rand(x, nn), random).0.registers[x as int];
            &&& v <= nn
            &&& ((v >> k) & 1 == 1) == ((nn >> k) & 1 == 1 && (random >> k) & 1 == 1)
        }),
{
    assert((random & nn) <= nn) by (bit_vector);
    assert(((random & nn) >> k) & 1 == 1 <==> ((nn >> k) & 1 == 1 && (random >> k) & 1 == 1))
        by (bit_vector)
        requires k < 8;
}

/// `FX15` and `FX18` set the delay and sound timers to `VX`; `FX07` reads
/// the delay timer back into `VX`.
pub proof fn law_timer_registers(m: MachineState, x: usize, y: usize)
    requires
        m.wf(),
        x < NUM_REGS,
        y < NUM_REGS,
    ensures
        execute_model(m, Instruction::Sdelay(x), 0).0.delay_timer == m.registers[x as int],
        execute_model(m, Instruction::Ssound(x), 0).0.sound_timer == m.registers[x as int],
        execute_model(m, Instruction::Gdelay(x), 0).0.registers[x as int] == m.delay_timer,
        execute_model(
            execute_model(m, Instruction::Sdelay(x), 0).0,
            Instruction::Gdelay(y),
            0,
        ).0.registers[y as int] == m.registers[x as int],
{
}

/// `FX1E` leaves `(I + VX) mod 0x1000` in `I`; `VF` becomes 1 when the sum
/// passed `0xFFF` and `adi_flags_overflow` is set, and is untouched
/// otherwise.
pub proof fn law_add_to_index_wraps(m: MachineState, x: usize)
    requires
        m.wf(),
        x < NUM_REGS,
    ensures
        ({
            let (after, r) = execute_model(m, Instruction::Adi(x), 0);
            let sum = m.index + m.registers[x as int];
            &&& r is Ok
            &&& after.index == sum % 0x1000
            &&& after.registers[VF as int] == (if sum > 0xFFF && m.config.adi_flags_overflow {
                1
            } else {
                m.registers[VF as int]
            })
        }),
{
}

/// `FX55` writes `V0`..`VX` to `I`..`I + X`, and `FX65` reads `V0`..`VX`
/// from `I`..`I + X`, when that range fits in memory; `I` advances by
/// `X + 1` only when `str_ldr_increments_index` is set.
pub proof fn law_store_and_load_registers(m: MachineState, x: usize, i: int)
    requires
        m.wf(),
        x < NUM_REGS,
        m.index + x + 1 <= MEMORY_SIZE,
        0 <= i <= x,
    ensures
        ({
            let (stored, rs) = execute_model(m, Instruction::Str(x), 0);
            let (loaded, rl) = execute_model(m, Instruction::Ldr(x), 0);
            let index = if m.config.str_ldr_increments_index { m.index + x + 1 } else { m.index };
            &&& rs is Ok && rl is Ok
            &&& stored.memory[m.index + i] == m.registers[i]
            &&& loaded.registers[i] == m.memory[m.index + i]
            &&& stored.index == index && loaded.index == index
            &&& stored.registers == m.registers
            &&& loaded.memory == m.memory
        }),
{
}

/// `00E0` turns every pixel off and marks the display changed.
pub proof fn law_clear_screen(m: MachineState, row: int, col: int)
    requires
        m.wf(),
        on_screen(row, col),
    ensures
        !execute_model(m, Instruction::Cls, 0).0.pixels[row][col],
        execute_model(m, Instruction::Cls, 0).0.dirty,
{
}

/// `DXYN` sets `VF` exactly when drawing turned some lit pixel off.
pub proof fn law_sprite_collision_means_erased_pixel(m: MachineState, x: usize, y: usize, n: u8)
    requires
        m.wf(),
        x < NUM_REGS,
        y < NUM_REGS,
        n < 16,
        m.index + n <= MEMORY_SIZE,
    ensures
        ({
            let (after, r) = execute_model(m, Instruction::Sprite(x, y, n), 0);
            &&& r is Ok
            &&& (after.registers[VF as int] == 1) == (exists|row: int, col: int|
                on_screen(row, col) && #[trigger] m.pixels[row][col] && !after.pixels[row][col])
            &&& after.registers[VF as int] <= 1
        }),
{
    let (after, r) = execute_model(m, Instruction::Sprite(x, y, n), 0);
    if exists|row: int, col: int| on_screen(row, col) && #[trigger] m.pixels[row][col] && !after.pixels[row][col] {
        let (row, col) = choose|row: int, col: int| on_screen(row, col) && #[trigger] m.pixels[row][col] && !after.pixels[row][col];
        assert(after.pixels[row][col] == (m.pixels[row][col] != sprite_covers(
            (m.registers[x as int] as int) % 64,
            (m.registers[y as int] as int) % 32,
            m.memory.subrange(m.index, m.index + n),
            m.config.sprites_wrap_at_edge,
            row,
            col,
        )));
    }
}

/// A program holding the big-endian encoding of an instruction at `pc`
/// executes that instruction: one step moves `pc` past the two bytes and
/// then does what the instruction does.
pub proof fn law_step_runs_encoded_instruction(m: MachineState, ins: Instruction, random: u8)
    requires
        m.wf(),
        ins.wf(),
        !(ins is Unknown),
        m.pc + 1 < MEMORY_SIZE,
        m.memory[m.pc] * 256 + m.memory[m.pc + 1] == crate::opcode::encode(ins),
    ensures
        step_model(m, random) == execute_model(m.with_pc(m.pc + 2), ins, random),
{
    crate::opcode::lemma_decode_wf(crate::opcode::encode(ins) as u16);
}

/// The key that `FX0A` takes by default is the lowest-numbered pressed key:
/// it is pressed and every key below it is up; there is none exactly when
/// no key is pressed.
pub proof fn law_lowest_pressed_key(keys: Seq<bool>)
    requires
        keys.len() == NUM_KEYS,
    ensures
        first_pressed(keys) is None <==> forall|k: int| 0 <= k < NUM_KEYS ==> !#[trigger] keys[k],
        first_pressed(keys) matches Some(k) ==> 0 <= k < NUM_KEYS && keys[k] && forall|j: int|
            0 <= j < k ==> !#[trigger] keys[j],
{
    if exists|k: int| 0 <= k < keys.len() && #[trigger] keys[k] {
        let k0 = choose|k: int| 0 <= k < keys.len() && #[trigger] keys[k];
        lemma_lowest_exists(keys, k0);
    }
}

/// Below any pressed key there is a lowest pressed key.
proof fn lemma_lowest_exists(keys: Seq<bool>, k: int)
    requires
        0 <= k < keys.len(),
        keys[k],
    ensures
        exists|l: int| 0 <= l < keys.len() && keys[l] && forall|j: int| 0 <= j < l ==> !#[trigger] keys[j],
    decreases k,
{
    if exists|j: int| 0 <= j < k && #[trigger] keys[j] {
        let j = choose|j: int| 0 <= j < k && #[trigger] keys[j];
        lemma_lowest_exists(keys, j);
    } else {
        assert(forall|j: int| 0 <= j < k ==> !#[trigger] keys[j]);
    }
}

/// Reset brings the machine back to the state of a fresh boot, except for
/// the keys, the configuration, and the display's dirty flag.
pub proof fn law_reset_is_fresh_boot(m: MachineState)
    ensures
        reset_model(m) == (MachineState {
            config: m.config,
            keys: m.keys,
            dirty: true,
            ..fresh_state()
        }),
        reset_model(m).memory == boot_memory(),
{
}

} // verus!
