use chip8::emulator::display::{font, Display, PIXEL_HEIGHT, PIXEL_WIDTH};

fn lit(display: &Display) -> Vec<(usize, usize)> {
    let pixels = display.pixels();
    let mut out = Vec::new();
    for y in 0..PIXEL_HEIGHT {
        for x in 0..PIXEL_WIDTH {
            if pixels[y][x] {
                out.push((x, y));
            }
        }
    }
    out
}

#[test]
fn new_display_is_blank() {
    assert!(lit(&Display::new()).is_empty());
}

#[test]
fn draw_sprite_sets_bits_msb_first() {
    let mut display = Display::new();
    let updated = display.draw_sprite(1, 2, &[0b1010_0000, 0b0000_0001]);
    assert!(updated);
    assert_eq!(lit(&display), vec![(1, 2), (3, 2), (8, 3)]);
}

#[test]
fn draw_twice_erases() {
    let mut display = Display::new();
    assert!(display.draw_sprite(10, 5, &[0xFF, 0x81]));
    assert!(display.draw_sprite(10, 5, &[0xFF, 0x81]));
    assert!(lit(&display).is_empty());
}

#[test]
fn draw_empty_sprite_changes_nothing() {
    let mut display = Display::new();
    assert!(!display.draw_sprite(0, 0, &[]));
    assert!(!display.draw_sprite(0, 0, &[0, 0, 0]));
    assert!(lit(&display).is_empty());
}

#[test]
fn start_position_wraps_sprite_clips() {
    let mut display = Display::new();
    // x = 70 wraps to 6, y = 33 wraps to 1
    assert!(display.draw_sprite(70, 33, &[0x80]));
    assert_eq!(lit(&display), vec![(6, 1)]);
    let mut display = Display::new();
    // starting at column 62: only two columns fit, the rest is clipped
    assert!(display.draw_sprite(62, 31, &[0xFF, 0xFF]));
    assert_eq!(lit(&display), vec![(62, 31), (63, 31)]);
    let mut display = Display::new();
    // only bits that fall off screen: nothing drawn, not updated
    assert!(!display.draw_sprite(63, 0, &[0x7F]));
    assert!(lit(&display).is_empty());
}

#[test]
fn clear_and_reset_blank_the_screen() {
    let mut display = Display::new();
    display.draw_sprite(0, 0, &[0xFF]);
    display.clear();
    assert!(lit(&display).is_empty());
    display.draw_sprite(0, 0, &[0xFF]);
    display.reset();
    assert!(lit(&display).is_empty());
}

#[test]
fn font_digits() {
    let font = font();
    assert_eq!(&font[0..5], &[0xF0, 0x90, 0x90, 0x90, 0xF0]);
    assert_eq!(&font[75..80], &[0xF0, 0x80, 0xF0, 0x80, 0x80]);
}
