use chip8_core::{Chip8Error, Display};

#[test]
fn test_new_display_is_empty() {
    let display = Display::new();

    assert_eq!(
        display.get_content(),
        &[[false; Display::WIDTH]; Display::HEIGHT]
    );
}

#[test]
fn test_set_pixel() {
    let mut display = Display::new();

    assert_eq!(display.set_pixel(3, 5, true), Ok(()));
    assert!(display.get_content()[3][5]);

    assert_eq!(display.set_pixel(3, 5, false), Ok(()));
    assert!(!display.get_content()[3][5]);
}

#[test]
fn test_set_pixel_out_of_bounds() {
    let mut display = Display::new();

    assert_eq!(
        display.set_pixel(Display::HEIGHT, 0, true),
        Err(Chip8Error::DisplayOutOfBounds {
            row: Display::HEIGHT,
            col: 0
        })
    );
    assert_eq!(
        display.set_pixel(0, Display::WIDTH, true),
        Err(Chip8Error::DisplayOutOfBounds {
            row: 0,
            col: Display::WIDTH
        })
    );
}

#[test]
fn test_clear() {
    let mut display = Display::new();
    display.set_pixel(0, 0, true).unwrap();
    display
        .set_pixel(Display::HEIGHT - 1, Display::WIDTH - 1, true)
        .unwrap();

    display.clear();

    assert_eq!(
        display.get_content(),
        &[[false; Display::WIDTH]; Display::HEIGHT]
    );
}

#[test]
fn test_draw_sprite() {
    let mut display = Display::new();

    assert_eq!(display.draw_sprite(2, 3, &[0b1010_0001]), Ok(false));

    assert!(display.get_content()[3][2]);
    assert!(display.get_content()[3][4]);
    assert!(display.get_content()[3][9]);
    assert!(!display.get_content()[3][3]);
}

#[test]
fn test_draw_sprite_collision() {
    let mut display = Display::new();
    display.set_pixel(3, 2, true).unwrap();
    display.set_pixel(3, 4, true).unwrap();

    assert_eq!(display.draw_sprite(2, 3, &[0b1010_0001]), Ok(true));

    assert!(!display.get_content()[3][2]);
    assert!(!display.get_content()[3][4]);
}

#[test]
fn test_draw_sprite_clips_at_display_edges() {
    let mut display = Display::new();

    assert_eq!(
        display.draw_sprite(
            Display::WIDTH - 2,
            Display::HEIGHT - 1,
            &[0b1111_1111, 0b1111_1111]
        ),
        Ok(false)
    );

    assert!(display.get_content()[Display::HEIGHT - 1][Display::WIDTH - 2]);
    assert!(display.get_content()[Display::HEIGHT - 1][Display::WIDTH - 1]);
    assert!(!display.get_content()[Display::HEIGHT - 2][Display::WIDTH - 1]);
}

#[test]
fn test_draw_sprite_out_of_bounds() {
    let mut display = Display::new();

    assert_eq!(
        display.draw_sprite(Display::WIDTH, 0, &[0]),
        Err(Chip8Error::DisplayOutOfBounds {
            row: 0,
            col: Display::WIDTH
        })
    );
    assert_eq!(
        display.draw_sprite(0, Display::HEIGHT, &[0]),
        Err(Chip8Error::DisplayOutOfBounds {
            row: Display::HEIGHT,
            col: 0
        })
    );
}

#[test]
fn display_test_out_of_bounds() {
    let display = Display::new();

    assert!(!display.out_of_bounds(0, 0));
    assert!(!display.out_of_bounds(Display::HEIGHT - 1, Display::WIDTH - 1));
    assert!(display.out_of_bounds(Display::HEIGHT, 0));
    assert!(display.out_of_bounds(0, Display::WIDTH));
}
