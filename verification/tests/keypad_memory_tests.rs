use chip8_core::font::{FONT_SET, FONT_SET_SIZE};
use chip8_core::{Keypad, Memory};

#[test]
fn test_keypad() {
    let mut keypad = Keypad::new();

    for i in 0..Keypad::NUM_KEYS {
        assert!(!keypad.out_of_bounds(i));
        assert!(!keypad.is_pressed(i).expect(""));
        assert!(!keypad.press_key(i).is_err());
        assert!(keypad.is_pressed(i).expect(""));
        assert!(!keypad.release_key(i).is_err());
        assert!(!keypad.is_pressed(i).expect(""));
    }
    assert!(!keypad.is_pressed_any().1);
    assert!(keypad.out_of_bounds(16));
    assert!(keypad.press_key(16).is_err());
    assert!(!keypad.press_key(0xA).is_err());
    assert_eq!(keypad.is_pressed_any(), (0xA, true));
}

#[test]
fn test_read_write() {
    let mut memory = Memory::new();
    for i in 0..Memory::MEMORY_SIZE {
        let write_value: u8 = (i % 256) as u8;
        memory
            .write(i, write_value)
            .expect("write to valid address should succeed");
        let read_value = memory
            .read(i)
            .expect("read from valid address should succeed");

        assert_eq!(read_value, write_value);
    }
}

#[test]
fn test_read_write_slice() {
    let mut memory = Memory::new();
    let write_data: [u8; Memory::MEMORY_SIZE] = [0xAB; Memory::MEMORY_SIZE];
    memory
        .write_slice(0, &write_data, Memory::MEMORY_SIZE)
        .expect("tried to write to valid address range");
    let read_data = memory
        .read_slice(0, Memory::MEMORY_SIZE)
        .expect("tried to read from valid address range");

    assert_eq!(*read_data, write_data);
}

#[test]
fn test_write_empty_slice() {
    let mut memory = Memory::new();
    let write_data: [u8; 0] = [];
    memory
        .write_slice(0, &write_data, 0)
        .expect("should handle empty slices");
}

#[test]
fn memory_test_out_of_bounds() {
    let mut memory = Memory::new();
    assert_eq!(memory.out_of_bounds(0), false);
    assert_eq!(memory.out_of_bounds(4096), true);
    assert!(memory.read(4096).is_err());
    assert!(memory.write(4096, 0).is_err());
    assert!(memory.read_slice(4094, 3).is_err());
    assert!(memory.write_slice(4094, &[0, 1, 2], 3).is_err());
}

#[test]
fn test_load_font() {
    let mut memory = Memory::new();
    memory.load_font();
    let font = FONT_SET;
    assert_eq!(
        font,
        memory
            .read_slice(Memory::FONT_START_ADDR, FONT_SET_SIZE)
            .expect("")
    );
}

#[test]
fn test_load_rom() {
    let mut memory = Memory::new();
    let rom: [u8; 10] = [0, 1, 2, 3, 4, 5, 6, 7, 8, 9];
    let oversized_rom: [u8; 5000] = [0xFF; 5000];

    memory.load_rom(&rom).expect("ROM size within limits");
    assert_eq!(
        memory.read_slice(Memory::ROM_START_ADDR, 10).expect(""),
        &rom
    );

    assert!(memory.load_rom(&oversized_rom).is_err());
}
