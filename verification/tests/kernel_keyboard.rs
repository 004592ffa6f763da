use rustos::kernel::keyboard::KeyboardState;

#[test]
fn translates_letters_numbers_and_control_keys() {
    let mut keyboard = KeyboardState::new();
    assert_eq!(keyboard.translate(0x1e), Some(b'a'));
    assert_eq!(keyboard.translate(0x02), Some(b'1'));
    assert_eq!(keyboard.translate(0x1c), Some(b'\r'));
    assert_eq!(keyboard.translate(0x0e), Some(8));
    assert_eq!(keyboard.translate(0x39), Some(b' '));
}

#[test]
fn tracks_shift_and_caps_lock_without_leaking_break_codes() {
    let mut keyboard = KeyboardState::new();
    assert_eq!(keyboard.translate(0x2a), None);
    assert_eq!(keyboard.translate(0x1e), Some(b'A'));
    assert_eq!(keyboard.translate(0xaa), None);
    assert_eq!(keyboard.translate(0x3a), None);
    assert_eq!(keyboard.translate(0x1e), Some(b'A'));
    assert_eq!(keyboard.translate(0xba), None);
}

#[test]
fn ignores_extended_keys_and_preserves_the_next_normal_key() {
    let mut keyboard = KeyboardState::new();
    assert_eq!(keyboard.translate(0xe0), None);
    assert_eq!(keyboard.translate(0x4d), None);
    assert_eq!(keyboard.translate(0x30), Some(b'b'));
}

#[test]
fn shift_selects_symbols_and_caps_lock_does_not() {
    let mut keyboard = KeyboardState::default();
    assert_eq!(keyboard.translate(0x3a), None);
    assert_eq!(keyboard.translate(0x02), Some(b'1'));
    assert_eq!(keyboard.translate(0x36), None);
    assert_eq!(keyboard.translate(0x02), Some(b'!'));
    assert_eq!(keyboard.translate(0x10), Some(b'Q'));
    assert_eq!(keyboard.translate(0xb6), None);
    assert_eq!(keyboard.translate(0x10), Some(b'Q'));
    assert_eq!(keyboard.translate(0x2b), Some(b'\\'));
    assert_eq!(keyboard.translate(0x01), None);
}
