use chip8_core::chip8::Chip8;
use chip8_core::disassembly::instruction_window;
use chip8_core::emulator::Emulator;
use chip8_core::font::FONT_SET;
use chip8_core::input::{input_edges, map_scancode, HostKey};
use chip8_core::runtime::{EmuCommand, Worker};
use chip8_core::utils::{add_with_carry, extract_bit, extract_nibbles, sub_with_borrow};
use chip8_core::{decode, Chip8Error, Config, Display, Instruction, Memory};

fn machine_with_rom(rom: &[u8]) -> Chip8 {
    let mut chip8 = Chip8::new();
    chip8.load_rom(rom).unwrap();
    chip8
}

#[test]
fn memory_write_then_read_keeps_other_bytes() {
    let mut memory = Memory::new();
    memory.write(0x400, 0x11).unwrap();
    memory.write(0x401, 0x22).unwrap();
    memory.write(0x400, 0x33).unwrap();
    assert_eq!(memory.read(0x400), Ok(0x33));
    assert_eq!(memory.read(0x401), Ok(0x22));
    assert_eq!(memory.read(0x3FF), Ok(0));
}

#[test]
fn memory_slice_round_trip_and_errors() {
    let mut memory = Memory::new();
    memory.write_slice(0xFFD, &[7, 8, 9], 3).unwrap();
    assert_eq!(memory.read_slice(0xFFD, 3).unwrap(), &[7, 8, 9]);
    assert_eq!(memory.read(0xFFC), Ok(0));
    assert_eq!(
        memory.read_slice(0xFFE, 3),
        Err(Chip8Error::MemoryOutOfBounds { address: 0xFFE })
    );
    assert_eq!(
        memory.write(0x1000, 1),
        Err(Chip8Error::MemoryOutOfBounds { address: 0x1000 })
    );
}

#[test]
fn memory_new_holds_font_and_clear_removes_it() {
    let mut memory = Memory::new();
    assert_eq!(memory.read_slice(0x50, 80).unwrap(), &FONT_SET[..]);
    assert_eq!(memory.read(0x4F), Ok(0));
    assert_eq!(memory.read(0xA0), Ok(0));
    memory.clear();
    assert_eq!(memory.read(0x50), Ok(0));
}

#[test]
fn rom_of_maximum_size_fits() {
    let mut memory = Memory::new();
    let rom = vec![0x5A; 0xE00];
    assert_eq!(memory.load_rom(&rom), Ok(()));
    assert_eq!(memory.read(0xFFF), Ok(0x5A));
    assert_eq!(memory.read(0x1FF), Ok(0));
    let mut chip8 = Chip8::new();
    assert_eq!(chip8.load_rom(&[]), Ok(()));
    assert_eq!(chip8.pc, 0x200);
}

#[test]
fn drawing_a_sprite_twice_restores_the_display() {
    let mut display = Display::new();
    display.set_pixel(10, 10, true).unwrap();
    let before = *display.get_content();
    assert_eq!(display.draw_sprite(8, 9, &[0xFF, 0x81, 0x3C]), Ok(false));
    assert_eq!(display.draw_sprite(8, 9, &[0xFF, 0x81, 0x3C]), Ok(true));
    assert_eq!(*display.get_content(), before);
}

#[test]
fn draw_on_blank_screen_never_collides() {
    let mut display = Display::new();
    assert_eq!(display.draw_sprite(0, 0, &[0x00]), Ok(false));
    assert_eq!(display.draw_sprite(0, 0, &[0x00]), Ok(false));
    assert_eq!(display.draw_sprite(0, 0, &[0x80]), Ok(false));
    assert_eq!(display.draw_sprite(0, 0, &[0x80]), Ok(true));
}

#[test]
fn wrapping_sprite_reappears_on_opposite_edges() {
    let mut display = Display::new();
    assert_eq!(
        display.draw_sprite_with_wrap(62, 31, &[0xFF, 0x80], true),
        Ok(false)
    );
    let content = display.get_content();
    assert!(content[31][62]);
    assert!(content[31][63]);
    assert!(content[31][0]);
    assert!(content[31][5]);
    assert!(!content[31][6]);
    assert!(content[0][62]);
    assert!(!content[0][63]);
}

#[test]
fn display_dirty_flag_is_taken_once() {
    let mut chip8 = Chip8::new();
    assert!(!chip8.display_take_dirty());
    chip8.execute(Instruction::Cls).unwrap();
    assert!(chip8.display_take_dirty());
    assert!(!chip8.display_take_dirty());
}

#[test]
fn timers_count_down_to_zero_and_stop() {
    let mut chip8 = Chip8::new();
    chip8.delay_timer = 3;
    chip8.sound_timer = 2;
    for _ in 0..5 {
        chip8.tick_timers();
    }
    assert_eq!(chip8.delay_timer, 0);
    assert_eq!(chip8.sound_timer, 0);
    assert!(!chip8.is_beeping());
}

#[test]
fn call_then_return_restores_pc_and_stack_depth() {
    let mut chip8 = Chip8::new();
    chip8.pc = 0x456;
    chip8.execute(Instruction::Jsr(0x800)).unwrap();
    chip8.execute(Instruction::Jsr(0x900)).unwrap();
    assert_eq!(chip8.sp, 2);
    chip8.execute(Instruction::Rts).unwrap();
    assert_eq!(chip8.pc, 0x800);
    chip8.execute(Instruction::Rts).unwrap();
    assert_eq!(chip8.pc, 0x456);
    assert_eq!(chip8.sp, 0);
    assert_eq!(chip8.execute(Instruction::Rts), Err(Chip8Error::StackUnderflow));
}

#[test]
fn call_with_full_stack_overflows_and_changes_nothing() {
    let mut chip8 = Chip8::new();
    for _ in 0..16 {
        chip8.execute(Instruction::Jsr(0x300)).unwrap();
    }
    chip8.pc = 0x222;
    assert_eq!(chip8.execute(Instruction::Jsr(0x400)), Err(Chip8Error::StackOverflow));
    assert_eq!(chip8.pc, 0x222);
    assert_eq!(chip8.sp, 16);
}

#[test]
fn store_and_load_stop_at_end_of_memory() {
    let mut chip8 = Chip8::new();
    chip8.index = 0xFFE;
    chip8.registers[0] = 1;
    chip8.registers[1] = 2;
    chip8.registers[2] = 3;
    assert_eq!(
        chip8.execute(Instruction::Str(2)),
        Err(Chip8Error::MemoryOutOfBounds { address: 0x1000 })
    );
    assert_eq!(chip8.ram.read(0xFFE), Ok(1));
    assert_eq!(chip8.ram.read(0xFFF), Ok(2));
    chip8.registers[0] = 0;
    chip8.registers[1] = 0;
    chip8.registers[2] = 9;
    assert_eq!(
        chip8.execute(Instruction::Ldr(2)),
        Err(Chip8Error::MemoryOutOfBounds { address: 0x1000 })
    );
    assert_eq!(chip8.registers[0], 1);
    assert_eq!(chip8.registers[1], 2);
    assert_eq!(chip8.registers[2], 9);
    assert_eq!(chip8.index, 0xFFE);
}

#[test]
fn store_and_load_increment_index_when_configured() {
    let mut chip8 = Chip8::new();
    chip8.config.str_ldr_increments_index = true;
    chip8.index = 0x300;
    chip8.registers[0] = 0xAA;
    chip8.registers[1] = 0xBB;
    chip8.execute(Instruction::Str(1)).unwrap();
    assert_eq!(chip8.index, 0x302);
    assert_eq!(chip8.ram.read_slice(0x300, 2).unwrap(), &[0xAA, 0xBB]);
    chip8.index = 0x300;
    chip8.registers[0] = 0;
    chip8.registers[1] = 0;
    chip8.execute(Instruction::Ldr(1)).unwrap();
    assert_eq!(chip8.index, 0x302);
    assert_eq!(chip8.registers[0], 0xAA);
    assert_eq!(chip8.registers[1], 0xBB);
}

#[test]
fn jump_with_offset_uses_v0_or_vx() {
    let mut chip8 = Chip8::new();
    chip8.registers[0] = 3;
    chip8.registers[2] = 5;
    chip8.execute(Instruction::Jmi(0x2A0)).unwrap();
    assert_eq!(chip8.pc, 0x2A3);
    chip8.config.jmi_uses_vx = true;
    chip8.execute(Instruction::Jmi(0x2A0)).unwrap();
    assert_eq!(chip8.pc, 0x2A5);
}

#[test]
fn shifts_use_vy_when_configured() {
    let mut chip8 = Chip8::new();
    chip8.config.shift_uses_vy = true;
    chip8.registers[1] = 0;
    chip8.registers[2] = 0b0000_0101;
    chip8.execute(Instruction::Shr(1, 2)).unwrap();
    assert_eq!(chip8.registers[1], 0b0000_0010);
    assert_eq!(chip8.registers[0xF], 1);
    chip8.registers[2] = 0b0100_0000;
    chip8.execute(Instruction::Shl(1, 2)).unwrap();
    assert_eq!(chip8.registers[1], 0b1000_0000);
    assert_eq!(chip8.registers[0xF], 0);
}

#[test]
fn add_to_index_flags_overflow_only_when_configured() {
    let mut chip8 = Chip8::new();
    chip8.index = 0xFFE;
    chip8.registers[1] = 4;
    chip8.registers[0xF] = 7;
    chip8.execute(Instruction::Adi(1)).unwrap();
    assert_eq!(chip8.index, 2);
    assert_eq!(chip8.registers[0xF], 7);
    chip8.config.adi_flags_overflow = true;
    chip8.index = 0xFFE;
    chip8.execute(Instruction::Adi(1)).unwrap();
    assert_eq!(chip8.index, 2);
    assert_eq!(chip8.registers[0xF], 1);
}

#[test]
fn font_instruction_points_at_glyph() {
    let mut chip8 = Chip8::new();
    chip8.registers[3] = 0x1A;
    chip8.execute(Instruction::Font(3)).unwrap();
    assert_eq!(chip8.index, 0x50 + 0xA * 5);
    assert_eq!(chip8.ram.read_slice(chip8.index, 5).unwrap(), &FONT_SET[50..55]);
}

#[test]
fn sub_and_reverse_subtract_flags() {
    let mut chip8 = Chip8::new();
    chip8.registers[1] = 5;
    chip8.registers[2] = 5;
    chip8.execute(Instruction::Sub(1, 2)).unwrap();
    assert_eq!(chip8.registers[1], 0);
    assert_eq!(chip8.registers[0xF], 1);
    chip8.registers[1] = 1;
    chip8.registers[2] = 0;
    chip8.execute(Instruction::Rsb(1, 2)).unwrap();
    assert_eq!(chip8.registers[1], 255);
    assert_eq!(chip8.registers[0xF], 0);
    chip8.registers[1] = 200;
    chip8.registers[2] = 100;
    chip8.execute(Instruction::Add(1, 2)).unwrap();
    assert_eq!(chip8.registers[1] as u16 + 256 * chip8.registers[0xF] as u16, 300);
}

#[test]
fn key_skips_reject_out_of_range_key() {
    let mut chip8 = Chip8::new();
    chip8.registers[4] = 0x10;
    chip8.pc = 0x200;
    assert_eq!(
        chip8.execute(Instruction::Skpr(4)),
        Err(Chip8Error::KeypadOutOfBounds { key: 0x10 })
    );
    assert_eq!(
        chip8.execute(Instruction::Skup(4)),
        Err(Chip8Error::KeypadOutOfBounds { key: 0x10 })
    );
    assert_eq!(chip8.pc, 0x200);
}

#[test]
fn key_wait_stores_lowest_pressed_key() {
    let mut chip8 = Chip8::new();
    chip8.pc = 0x210;
    chip8.key_down(0x9).unwrap();
    chip8.key_down(0x3).unwrap();
    chip8.execute(Instruction::Key(6)).unwrap();
    assert_eq!(chip8.registers[6], 3);
    assert_eq!(chip8.pc, 0x210);
}

#[test]
fn sprite_beyond_memory_fails_with_flag_cleared() {
    let mut chip8 = Chip8::new();
    chip8.index = 0xFFC;
    chip8.registers[0xF] = 1;
    assert_eq!(
        chip8.execute(Instruction::Sprite(0, 0, 5)),
        Err(Chip8Error::MemoryOutOfBounds { address: 0xFFC })
    );
    assert_eq!(chip8.registers[0xF], 0);
}

#[test]
fn sprite_start_wraps_onto_screen() {
    let mut chip8 = Chip8::new();
    chip8.index = 0x300;
    chip8.ram.write(0x300, 0b1000_0000).unwrap();
    chip8.registers[1] = 64 + 5;
    chip8.registers[2] = 32 + 7;
    chip8.execute(Instruction::Sprite(1, 2, 1)).unwrap();
    assert!(chip8.display.get_content()[7][5]);
}

#[test]
fn bcd_beyond_memory_fails() {
    let mut chip8 = Chip8::new();
    chip8.index = 0xFFE;
    chip8.registers[0] = 123;
    assert_eq!(
        chip8.execute(Instruction::Bcd(0)),
        Err(Chip8Error::MemoryOutOfBounds { address: 0xFFE })
    );
    assert_eq!(chip8.ram.read(0xFFE), Ok(0));
}

#[test]
fn fetch_reports_address_past_memory() {
    let mut chip8 = Chip8::new();
    chip8.pc = 0xFFF;
    assert_eq!(chip8.step(), Err(Chip8Error::MemoryOutOfBounds { address: 0x1000 }));
    assert_eq!(chip8.pc, 0xFFF);
    chip8.pc = 0x1000;
    assert_eq!(chip8.step(), Err(Chip8Error::MemoryOutOfBounds { address: 0x1000 }));
}

#[test]
fn unknown_opcode_still_advances_pc() {
    let mut chip8 = machine_with_rom(&[0x80, 0x08]);
    assert_eq!(chip8.step(), Err(Chip8Error::UnknownOpcode(0x8008)));
    assert_eq!(chip8.pc, 0x202);
}

#[test]
fn decode_covers_every_family() {
    assert_eq!(decode(0x00E0), Instruction::Cls);
    assert_eq!(decode(0x00EE), Instruction::Rts);
    assert_eq!(decode(0x00FE), Instruction::Low);
    assert_eq!(decode(0x00FF), Instruction::High);
    assert_eq!(decode(0x00E1), Instruction::Unknown);
    assert_eq!(decode(0x1ABC), Instruction::Jmp(0xABC));
    assert_eq!(decode(0x2ABC), Instruction::Jsr(0xABC));
    assert_eq!(decode(0x3A12), Instruction::SkeqConst(0xA, 0x12));
    assert_eq!(decode(0x4A12), Instruction::SkneConst(0xA, 0x12));
    assert_eq!(decode(0x5AB0), Instruction::Skeq(0xA, 0xB));
    assert_eq!(decode(0x6A12), Instruction::MovConst(0xA, 0x12));
    assert_eq!(decode(0x7A12), Instruction::AddConst(0xA, 0x12));
    assert_eq!(decode(0x8AB0), Instruction::Mov(0xA, 0xB));
    assert_eq!(decode(0x8AB1), Instruction::Or(0xA, 0xB));
    assert_eq!(decode(0x8AB2), Instruction::And(0xA, 0xB));
    assert_eq!(decode(0x8AB3), Instruction::Xor(0xA, 0xB));
    assert_eq!(decode(0x8AB4), Instruction::Add(0xA, 0xB));
    assert_eq!(decode(0x8AB5), Instruction::Sub(0xA, 0xB));
    assert_eq!(decode(0x8AB6), Instruction::Shr(0xA, 0xB));
    assert_eq!(decode(0x8AB7), Instruction::Rsb(0xA, 0xB));
    assert_eq!(decode(0x8ABE), Instruction::Shl(0xA, 0xB));
    assert_eq!(decode(0x8AB9), Instruction::Unknown);
    assert_eq!(decode(0x9AB0), Instruction::Skne(0xA, 0xB));
    assert_eq!(decode(0xA123), Instruction::Mvi(0x123));
    assert_eq!(decode(0xB123), Instruction::Jmi(0x123));
    assert_eq!(decode(0xCA12), Instruction::Rand(0xA, 0x12));
    assert_eq!(decode(0xDAB5), Instruction::Sprite(0xA, 0xB, 5));
    assert_eq!(decode(0xEA9E), Instruction::Skpr(0xA));
    assert_eq!(decode(0xEAA1), Instruction::Skup(0xA));
    assert_eq!(decode(0xEA00), Instruction::Unknown);
    assert_eq!(decode(0xFA07), Instruction::Gdelay(0xA));
    assert_eq!(decode(0xFA0A), Instruction::Key(0xA));
    assert_eq!(decode(0xFA15), Instruction::Sdelay(0xA));
    assert_eq!(decode(0xFA18), Instruction::Ssound(0xA));
    assert_eq!(decode(0xFA1E), Instruction::Adi(0xA));
    assert_eq!(decode(0xFA29), Instruction::Font(0xA));
    assert_eq!(decode(0xFA30), Instruction::Xfont(0xA));
    assert_eq!(decode(0xFA33), Instruction::Bcd(0xA));
    assert_eq!(decode(0xFA55), Instruction::Str(0xA));
    assert_eq!(decode(0xFA65), Instruction::Ldr(0xA));
    assert_eq!(decode(0xFA66), Instruction::Unknown);
}

#[test]
fn rand_draws_varied_bytes() {
    let mut chip8 = Chip8::new();
    let mut seen = [false; 256];
    for _ in 0..200 {
        chip8.execute(Instruction::Rand(2, 0xFF)).unwrap();
        seen[chip8.registers[2] as usize] = true;
    }
    assert!(seen.iter().filter(|s| **s).count() > 1);
}

#[test]
fn reset_returns_to_fresh_boot_but_keeps_keys_and_config() {
    let mut chip8 = machine_with_rom(&[0x61, 0x2A, 0x12, 0x00]);
    chip8.step().unwrap();
    chip8.key_down(5).unwrap();
    chip8.config.shift_uses_vy = true;
    chip8.delay_timer = 9;
    chip8.reset();
    let fresh = Chip8::new();
    assert_eq!(chip8.get_memory_content(), fresh.get_memory_content());
    assert_eq!(chip8.registers, fresh.registers);
    assert_eq!(chip8.pc, 0);
    assert_eq!(chip8.delay_timer, 0);
    assert_eq!(chip8.keypad.is_pressed(5), Ok(true));
    assert!(chip8.config.shift_uses_vy);
}

#[test]
fn config_default_has_every_option_off() {
    let config = Config::default();
    assert_eq!(config, Config::new());
    assert!(!config.shift_uses_vy && !config.jmi_uses_vx && !config.sprites_wrap_at_edge);
}

#[test]
fn emulator_runs_due_steps_and_carries_remainder() {
    let mut emulator = Emulator::with_step_nanos(1_000_000, 16_000_000);
    emulator.load_rom(&[0x70, 0x01, 0x70, 0x01, 0x70, 0x01, 0x70, 0x01, 0x70, 0x01]).unwrap();
    assert_eq!(emulator.update(3_500_000), Ok(()));
    assert_eq!(emulator.get_state().registers[0], 3);
    assert_eq!(emulator.update(600_000), Ok(()));
    assert_eq!(emulator.get_state().registers[0], 4);
}

#[test]
fn emulator_ticks_timers_at_their_own_rate() {
    let mut emulator = Emulator::with_step_nanos(1_000_000, 10_000_000);
    // V0 = 5, sound = V0, then jump to self.
    emulator.load_rom(&[0x60, 0x05, 0xF0, 0x18, 0x12, 0x04]).unwrap();
    assert_eq!(emulator.update(2_000_000), Ok(()));
    assert!(emulator.is_beeping());
    assert_eq!(emulator.get_state().sound_timer, 5);
    assert_eq!(emulator.update(30_000_000), Ok(()));
    assert_eq!(emulator.get_state().sound_timer, 2);
    assert_eq!(emulator.update(100_000_000), Ok(()));
    assert!(!emulator.is_beeping());
}

#[test]
fn emulator_stops_at_first_error_before_ticking() {
    let mut emulator = Emulator::with_step_nanos(1_000_000, 1_000_000);
    emulator.load_rom(&[0x60, 0x05, 0xF0, 0x15, 0x00, 0x00]).unwrap();
    assert_eq!(emulator.update(5_000_000), Err(Chip8Error::UnknownOpcode(0x0000)));
    assert_eq!(emulator.get_state().delay_timer, 5);
    assert_eq!(emulator.get_state().pc, 0x206);
}

#[test]
fn worker_commands_and_errors() {
    let mut worker = Worker::new(Emulator::with_step_nanos(1_000_000, 16_000_000));
    worker.handle_command(EmuCommand::KeyDown(0x20));
    let snapshot = worker.snapshot();
    assert_eq!(snapshot.error, Some(Chip8Error::KeypadOutOfBounds { key: 0x20 }));
    worker.handle_command(EmuCommand::LoadRom(vec![0x00, 0x00]));
    assert_eq!(worker.snapshot().error, None);
    worker.advance(5_000_000);
    assert_eq!(worker.snapshot().error, Some(Chip8Error::UnknownOpcode(0)));
    // Paused after the error: more time does nothing.
    worker.advance(5_000_000);
    assert_eq!(worker.snapshot().cpu.pc, 0x202);
    worker.handle_command(EmuCommand::LoadRom(vec![0xFF; 0xE01]));
    assert_eq!(
        worker.snapshot().error,
        Some(Chip8Error::RomTooLarge { size: 0xE01, max_size: 0xE00 })
    );
}

#[test]
fn worker_caps_catch_up_time() {
    let mut worker = Worker::new(Emulator::with_step_nanos(1_000_000, 1_000_000_000));
    // Jump to self forever.
    worker.handle_command(EmuCommand::LoadRom(vec![0x12, 0x00]));
    worker.handle_command(EmuCommand::SetConfig(Config::new()));
    worker.handle_command(EmuCommand::KeyDown(1));
    worker.advance(10_000_000_000);
    let snapshot = worker.snapshot();
    assert_eq!(snapshot.error, None);
    assert_eq!(snapshot.cpu.pc, 0x200);
    assert!(snapshot.display_dirty == false);
    worker.handle_command(EmuCommand::Pause(true));
    worker.handle_command(EmuCommand::StepOnce());
    assert_eq!(worker.snapshot().cpu.pc, 0x200);
    worker.handle_command(EmuCommand::Reset());
    assert_eq!(worker.snapshot().cpu.pc, 0);
}

#[test]
fn input_edges_report_changes_in_key_order() {
    let mut previous = [false; 16];
    previous[3] = true;
    previous[7] = true;
    let mut current = [false; 16];
    current[1] = true;
    current[7] = true;
    let commands = input_edges(&previous, &current);
    assert_eq!(commands.len(), 2);
    assert!(matches!(commands[0], EmuCommand::KeyDown(1)));
    assert!(matches!(commands[1], EmuCommand::KeyUp(3)));
    assert!(input_edges(&current, &current).is_empty());
}

#[test]
fn keyboard_layout_matches_keypad() {
    assert_eq!(map_scancode(HostKey::Num1), Some(0x1));
    assert_eq!(map_scancode(HostKey::Num4), Some(0xC));
    assert_eq!(map_scancode(HostKey::Q), Some(0x4));
    assert_eq!(map_scancode(HostKey::F), Some(0xE));
    assert_eq!(map_scancode(HostKey::X), Some(0x0));
    assert_eq!(map_scancode(HostKey::V), Some(0xF));
    assert_eq!(map_scancode(HostKey::Other), None);
}

#[test]
fn instruction_window_is_word_aligned_and_clipped() {
    let mut memory = [0u8; 4096];
    memory[0x1F6] = 0x12;
    memory[0x1F7] = 0x34;
    let lines = instruction_window(&memory, 0x201);
    assert_eq!(lines.len(), 20);
    assert_eq!(lines[0], (0x1F6, 0x1234));
    assert_eq!(lines[19].0, 0x1F6 + 38);
    let start = instruction_window(&memory, 4);
    assert_eq!(start[0].0, 0);
    let end = instruction_window(&memory, 0xFFE);
    assert_eq!(end.len(), 6);
    assert_eq!(end[5].0, 0xFFE);
}

#[test]
fn load_rom_keeps_font_and_places_rom() {
    let mut chip8 = Chip8::default();
    chip8.load_rom(&[0xDE, 0xAD, 0xBE, 0xEF]).unwrap();
    assert_eq!(chip8.ram.read_slice(0x50, 80).unwrap(), &FONT_SET[..]);
    assert_eq!(chip8.ram.read_slice(0x200, 4).unwrap(), &[0xDE, 0xAD, 0xBE, 0xEF]);
    assert_eq!(chip8.ram.read(0x204), Ok(0));
}

#[test]
fn step_leaves_timers_to_tick_timers() {
    // V0 = 9, then add to V0: neither touches the timers.
    let mut chip8 = machine_with_rom(&[0x60, 0x09, 0x70, 0x01]);
    chip8.delay_timer = 4;
    chip8.sound_timer = 6;
    chip8.step().unwrap();
    chip8.step().unwrap();
    assert_eq!(chip8.delay_timer, 4);
    assert_eq!(chip8.sound_timer, 6);
    assert_eq!(chip8.registers[0], 10);
}

#[test]
fn nibble_and_bit_helpers() {
    assert_eq!(extract_nibbles(0xABCD, 2, 1), 0xB);
    assert_eq!(extract_nibbles(0xABCD, 0, 3), 0xBCD);
    assert_eq!(extract_nibbles(0xABCD, 1, 2), 0xBC);
    assert_eq!(extract_nibbles(0xABCD, 3, 0), 0);
    assert_eq!(extract_bit(0b1000_0001, 0), 1);
    assert_eq!(extract_bit(0b1000_0001, 7), 1);
    assert_eq!(extract_bit(0b1000_0001, 3), 0);
    assert_eq!(add_with_carry(200, 56), (0, 1));
    assert_eq!(add_with_carry(200, 55), (255, 0));
    assert_eq!(sub_with_borrow(3, 5), (254, 0));
    assert_eq!(sub_with_borrow(5, 3), (2, 1));
}

#[test]
fn decode_checks_every_fixed_nibble() {
    assert_eq!(decode(0x5120), Instruction::Skeq(1, 2));
    assert_eq!(decode(0x5121), Instruction::Unknown);
    assert_eq!(decode(0x9AB0), Instruction::Skne(0xA, 0xB));
    assert_eq!(decode(0x9AB1), Instruction::Unknown);
    assert_eq!(decode(0xEA9E), Instruction::Skpr(0xA));
    assert_eq!(decode(0xEA1E), Instruction::Unknown);
    assert_eq!(decode(0xEAA1), Instruction::Skup(0xA));
    assert_eq!(decode(0xEAB1), Instruction::Unknown);
    assert_eq!(decode(0x00E0), Instruction::Cls);
    assert_eq!(decode(0x01E0), Instruction::Unknown);
    assert_eq!(decode(0x00EE), Instruction::Rts);
    assert_eq!(decode(0x0AEE), Instruction::Unknown);
    assert_eq!(decode(0x00FE), Instruction::Low);
    assert_eq!(decode(0x00FF), Instruction::High);
    assert_eq!(decode(0x10FF), Instruction::Jmp(0x0FF));
}

#[test]
fn key_wait_holds_until_release_when_configured() {
    let mut chip8 = Chip8::new();
    chip8.config.key_waits_for_release = true;
    chip8.set_register(1, 0x55);
    chip8.key_down(0xC).unwrap();

    chip8.set_pc(0x202);
    chip8.execute(Instruction::Key(1)).unwrap();
    assert_eq!(chip8.pc, 0x200);
    assert_eq!(chip8.registers[1], 0x55);
    assert_eq!(chip8.awaited_key, Some(0xC));

    chip8.set_pc(0x202);
    chip8.execute(Instruction::Key(1)).unwrap();
    assert_eq!(chip8.pc, 0x200);
    assert_eq!(chip8.registers[1], 0x55);

    chip8.key_up(0xC).unwrap();
    chip8.set_pc(0x202);
    chip8.execute(Instruction::Key(1)).unwrap();
    assert_eq!(chip8.pc, 0x202);
    assert_eq!(chip8.registers[1], 0xC);
    assert_eq!(chip8.awaited_key, None);
}

#[test]
fn key_wait_stores_at_once_by_default() {
    let mut chip8 = Chip8::new();
    chip8.key_down(0xC).unwrap();
    chip8.set_pc(0x202);
    chip8.execute(Instruction::Key(1)).unwrap();
    assert_eq!(chip8.pc, 0x202);
    assert_eq!(chip8.registers[1], 0xC);

    let mut idle = Chip8::new();
    idle.set_pc(0x202);
    idle.execute(Instruction::Key(1)).unwrap();
    assert_eq!(idle.pc, 0x200);
    assert_eq!(idle.registers[1], 0);
}

#[test]
fn dirty_flag_reports_each_change_once() {
    let mut chip8 = Chip8::new();
    assert!(!chip8.display_take_dirty());
    chip8.index = 0x050;
    chip8.execute(Instruction::Sprite(0, 0, 5)).unwrap();
    assert!(chip8.display_take_dirty());
    assert!(!chip8.display_take_dirty());
    chip8.execute(Instruction::MovConst(3, 7)).unwrap();
    assert!(!chip8.display_take_dirty());
    chip8.execute(Instruction::Cls).unwrap();
    assert!(chip8.display_take_dirty());
    assert!(!chip8.display_take_dirty());
}

#[test]
fn error_messages_match_the_front_end_text() {
    assert_eq!(Chip8Error::UnknownOpcode(0xABCD).message(), "unknown opcode: 0xABCD");
    assert_eq!(Chip8Error::UnknownOpcode(0x00E1).message(), "unknown opcode: 0x00E1");
    assert_eq!(Chip8Error::UnknownOpcode(0).message(), "unknown opcode: 0x0000");
    assert_eq!(
        Chip8Error::StackOverflow.message(),
        "stack overflow: exceeded 16 nested calls"
    );
    assert_eq!(
        Chip8Error::StackUnderflow.message(),
        "stack underflow: RET with no matching CALL"
    );
    assert_eq!(
        Chip8Error::RomTooLarge { size: 4000, max_size: 3584 }.message(),
        "ROM too large: 4000 bytes, max is 3584 bytes"
    );
    assert_eq!(
        Chip8Error::MemoryOutOfBounds { address: 0x1000 }.message(),
        "out of bounds memory access at address: 0x1000"
    );
    assert_eq!(
        Chip8Error::MemoryOutOfBounds { address: 0x12FAB }.message(),
        "out of bounds memory access at address: 0x12FAB"
    );
    assert_eq!(
        Chip8Error::DisplayOutOfBounds { row: 32, col: 0 }.message(),
        "out of bounds display access at row 32, column 0"
    );
    assert_eq!(
        Chip8Error::KeypadOutOfBounds { key: 16 }.message(),
        "out of bounds keypad key: 16"
    );
    for e in [
        Chip8Error::UnknownOpcode(0x0123),
        Chip8Error::RomTooLarge { size: 123456, max_size: 10 },
        Chip8Error::MemoryOutOfBounds { address: 0xFFF },
        Chip8Error::DisplayOutOfBounds { row: 99, col: 1234 },
    ] {
        let expected = match e {
            Chip8Error::UnknownOpcode(op) => format!("unknown opcode: {op:#06X}"),
            Chip8Error::RomTooLarge { size, max_size } => {
                format!("ROM too large: {size} bytes, max is {max_size} bytes")
            }
            Chip8Error::MemoryOutOfBounds { address } => {
                format!("out of bounds memory access at address: {address:#06X}")
            }
            Chip8Error::DisplayOutOfBounds { row, col } => {
                format!("out of bounds display access at row {row}, column {col}")
            }
            _ => unreachable!(),
        };
        assert_eq!(e.message(), expected);
    }
}
