use chip8::keyboard::{keypad_index, Keyboard, NO_KEY};

#[test]
fn keyboard_starts_released_with_no_halt_key() {
    let keyboard = Keyboard::new();
    assert_eq!(&[false; 16], keyboard.get_state());
    assert_eq!(NO_KEY, keyboard.get_halt_key());
    assert_eq!(None, keyboard.lowest_pressed_key());
}

#[test]
fn keyboard_lowest_pressed_key() {
    let mut keyboard = Keyboard::new();
    keyboard.set_key(9, true);
    keyboard.set_key(4, true);
    assert_eq!(Some(4), keyboard.lowest_pressed_key());
    assert!(keyboard.is_pressed(9));
    assert!(!keyboard.is_pressed(200));
    keyboard.set_key(4, false);
    assert_eq!(Some(9), keyboard.lowest_pressed_key());
}

#[test]
fn keyboard_halt_key_round_trip() {
    let mut keyboard = Keyboard::new();
    keyboard.set_halt_key(7);
    assert_eq!(7, keyboard.get_halt_key());
}

#[test]
fn keypad_symbols_map_to_key_codes() {
    assert_eq!(Some(0), keypad_index('0'));
    assert_eq!(Some(9), keypad_index('9'));
    assert_eq!(Some(10), keypad_index('A'));
    assert_eq!(Some(15), keypad_index('F'));
    assert_eq!(None, keypad_index('G'));
    assert_eq!(None, keypad_index('a'));
}
