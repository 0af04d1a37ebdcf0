use chip8::display::Display;

#[test]
fn new_display_is_blank_and_dirty() {
    let display = Display::new();
    assert!(display.changed);
    assert_eq!(display.pixels.len(), 32);
    for row in display.pixels.iter() {
        assert_eq!(row.len(), 64);
        assert!(row.iter().all(|pixel| !pixel));
    }
}

#[test]
fn draw_pixel_twice_sets_then_erases() {
    let mut display = Display::new();
    assert!(!display.draw_pixel(10, 5, true));
    assert!(display.pixels[5][10]);
    assert!(display.draw_pixel(10, 5, true));
    assert!(!display.pixels[5][10]);
}

#[test]
fn draw_pixel_twice_at_every_place() {
    for y in 0..32usize {
        for x in 0..64usize {
            let mut display = Display::new();
            assert!(!display.draw_pixel(x, y, true));
            assert!(display.pixels[y][x]);
            let lit = display.pixels.iter().flatten().filter(|pixel| **pixel).count();
            assert_eq!(lit, 1);
            assert!(display.draw_pixel(x, y, true));
            assert!(!display.pixels[y][x]);
        }
    }
}

#[test]
fn drawing_a_clear_bit_changes_no_pixel_but_marks_dirty() {
    let mut display = Display::new();
    display.draw_pixel(3, 4, true);
    display.changed = false;
    assert!(!display.draw_pixel(3, 4, false));
    assert!(display.pixels[4][3]);
    assert!(display.changed);
    display.changed = false;
    assert!(!display.draw_pixel(7, 8, false));
    assert!(!display.pixels[8][7]);
    assert!(display.changed);
}

#[test]
fn draw_pixel_reaches_the_corners() {
    let mut display = Display::new();
    assert!(!display.draw_pixel(0, 0, true));
    assert!(!display.draw_pixel(63, 0, true));
    assert!(!display.draw_pixel(0, 31, true));
    assert!(!display.draw_pixel(63, 31, true));
    assert!(display.pixels[0][0]);
    assert!(display.pixels[0][63]);
    assert!(display.pixels[31][0]);
    assert!(display.pixels[31][63]);
}

#[test]
fn clear_turns_every_pixel_off_and_marks_dirty() {
    let mut display = Display::new();
    display.draw_pixel(1, 1, true);
    display.draw_pixel(63, 31, true);
    display.changed = false;
    display.clear();
    assert!(display.changed);
    assert!(display.pixels.iter().flatten().all(|pixel| !pixel));
}

#[test]
fn clear_marks_a_blank_display_dirty() {
    let mut display = Display::new();
    display.changed = false;
    display.clear();
    assert!(display.changed);
}
