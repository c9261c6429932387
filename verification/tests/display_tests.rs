use chip8::display::Display;

#[test]
fn new_display_is_clear_and_dirty() {
    let mut d = Display::new();
    for x in 0..64u8 {
        for y in 0..32u8 {
            assert!(!d.vram_get(x, y));
        }
    }
    assert!(d.take_changed());
    assert!(!d.take_changed());
}

#[test]
fn set_and_get_pixels() {
    let mut d = Display::new();
    d.take_changed();

    d.vram_set(10, 20, true);
    assert!(d.vram_get(10, 20));
    assert!(!d.vram_get(20, 10));
    assert!(d.take_changed());

    d.vram_set(10, 20, false);
    assert!(!d.vram_get(10, 20));
    assert!(d.take_changed());
}

#[test]
fn clear_resets_pixels_and_owes_redraw() {
    let mut d = Display::new();
    d.vram_set(0, 0, true);
    d.vram_set(63, 31, true);
    d.take_changed();

    d.clear();
    assert!(!d.vram_get(0, 0));
    assert!(!d.vram_get(63, 31));
    assert!(d.take_changed());
}
