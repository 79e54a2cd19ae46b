use vibekeys::bt_keyboard::KeyboardAndMouse;
use vibekeys::bt_keyboard::{KEY_ESC, KEY_RETURN, KEY_TAB};
use vibekeys::keycode::{translate, ASCII_MAP, SHIFT};
use vibekeys::report::{KeyReport, MediaKeyReport, MouseReport, Report};
use vibekeys::report::{KEYBOARD_ID, MEDIA_KEYS_ID, MOUSE_ID};

fn idle() -> KeyReport {
    KeyReport { modifiers: 0, reserved: 0, keys: [0; 6] }
}

fn key(modifiers: u8, usage: u8) -> KeyReport {
    KeyReport { modifiers, reserved: 0, keys: [usage, 0, 0, 0, 0, 0] }
}

#[test]
fn new_device_reports_nothing() {
    let kb = KeyboardAndMouse::new();
    assert_eq!(kb.key_report(), idle());
    assert_eq!(kb.media_key_report(), MediaKeyReport { keys: [0, 0] });
}

#[test]
fn translate_letters_digits_and_punctuation() {
    assert_eq!(translate(b'a'), (0x04, false));
    assert_eq!(translate(b'z'), (0x1d, false));
    assert_eq!(translate(b'A'), (0x04, true));
    assert_eq!(translate(b'Z'), (0x1d, true));
    assert_eq!(translate(b'1'), (0x1e, false));
    assert_eq!(translate(b'9'), (0x26, false));
    assert_eq!(translate(b'0'), (0x27, false));
    assert_eq!(translate(b'!'), (0x1e, true));
    assert_eq!(translate(b'@'), (0x1f, true));
    assert_eq!(translate(b')'), (0x27, true));
    assert_eq!(translate(b' '), (0x2c, false));
    assert_eq!(translate(b'/'), (0x38, false));
    assert_eq!(translate(b'?'), (0x38, true));
    assert_eq!(translate(b'\''), (0x34, false));
    assert_eq!(translate(b'"'), (0x34, true));
    assert_eq!(translate(b'~'), (0x35, true));
    assert_eq!(translate(b'\\'), (0x31, false));
    assert_eq!(translate(b'|'), (0x31, true));
}

#[test]
fn translate_control_characters() {
    assert_eq!(translate(0x08), (0x2a, false));
    assert_eq!(translate(b'\t'), (0x2b, false));
    assert_eq!(translate(b'\n'), (0x28, false));
    assert_eq!(translate(0x1b), (0x29, false));
    assert_eq!(translate(0), (0, false));
    assert_eq!(translate(b'\r'), (0, false));
    assert_eq!(translate(0x1f), (0, false));
}

#[test]
fn translate_follows_the_table_below_128() {
    for c in 0u8..128 {
        let entry = ASCII_MAP[c as usize];
        assert_eq!(translate(c), (entry & 0x7f, entry & SHIFT != 0), "character {}", c);
    }
}

#[test]
fn translate_passes_values_above_the_table_through() {
    assert_eq!(translate(127), (0, false));
    assert_eq!(translate(128), (128, false));
    assert_eq!(translate(129), (129, false));
    assert_eq!(translate(KEY_RETURN), (0xb0, false));
    assert_eq!(translate(KEY_ESC), (0xb1, false));
    assert_eq!(translate(KEY_TAB), (0xb3, false));
    assert_eq!(translate(255), (255, false));
    for v in 128u8..=255 {
        assert_eq!(translate(v), (v, false));
    }
}

#[test]
fn press_uppercase_a_sets_shift_and_the_usage_of_lowercase_a() {
    let mut kb = KeyboardAndMouse::new();
    let report = kb.press(65);
    assert_eq!(report, Report::Keyboard(key(0x02, 0x04)));
    assert_eq!(kb.key_report(), key(0x02, 0x04));
    assert_eq!(translate(b'a').0, kb.key_report().keys[0]);
}

#[test]
fn press_lowercase_sets_no_modifier() {
    let mut kb = KeyboardAndMouse::new();
    assert_eq!(kb.press(b'q'), Report::Keyboard(key(0, 0x14)));
}

#[test]
fn press_raw_value_goes_to_slot_zero_unchanged() {
    let mut kb = KeyboardAndMouse::new();
    assert_eq!(kb.press(KEY_ESC), Report::Keyboard(key(0, 0xb1)));
    assert_eq!(kb.press(128), Report::Keyboard(key(0, 128)));
    assert_eq!(kb.press(255), Report::Keyboard(key(0, 255)));
}

#[test]
fn press_keeps_modifiers_that_are_held() {
    let mut kb = KeyboardAndMouse::new();
    kb.ctrl_press(b'c');
    assert_eq!(kb.press(b'v'), Report::Keyboard(key(0x01, 0x19)));
    assert_eq!(kb.press(b'V'), Report::Keyboard(key(0x03, 0x19)));
    assert_eq!(kb.press(200), Report::Keyboard(key(0x03, 200)));
}

#[test]
fn press_then_release_resets_for_every_character() {
    for c in 0u8..=255 {
        let mut kb = KeyboardAndMouse::new();
        kb.press(c);
        let report = kb.release();
        assert_eq!(report, Report::Keyboard(idle()));
        assert_eq!(kb.key_report().modifiers, 0);
        assert_eq!(kb.key_report().keys, [0u8; 6]);
    }
}

#[test]
fn release_clears_modifiers_of_modifier_presses() {
    let mut kb = KeyboardAndMouse::new();
    kb.gui_press(b'L');
    assert_eq!(kb.key_report(), key(0x0a, 0x0f));
    assert_eq!(kb.release(), Report::Keyboard(idle()));
}

#[test]
fn uppercase_letters_share_the_usage_of_lowercase_letters() {
    for upper in b'A'..=b'Z' {
        let lower = upper + 32;
        let mut kb = KeyboardAndMouse::new();
        let report = kb.press(upper);
        let expected = 0x04 + (upper - b'A');
        assert_eq!(report, Report::Keyboard(key(0x02, expected)));
        let mut other = KeyboardAndMouse::new();
        assert_eq!(other.press(lower), Report::Keyboard(key(0, expected)));
    }
}

#[test]
fn modifier_presses_set_their_flag() {
    let mut kb = KeyboardAndMouse::new();
    assert_eq!(kb.ctrl_press(b'a'), Report::Keyboard(key(0x01, 0x04)));
    kb.release();
    assert_eq!(kb.shift_press(b'a'), Report::Keyboard(key(0x02, 0x04)));
    kb.release();
    assert_eq!(kb.alt_press(b'a'), Report::Keyboard(key(0x04, 0x04)));
    kb.release();
    assert_eq!(kb.gui_press(b'a'), Report::Keyboard(key(0x08, 0x04)));
    kb.release();
    assert_eq!(kb.r_ctrl_press(b'a'), Report::Keyboard(key(0x10, 0x04)));
    kb.release();
    assert_eq!(kb.r_shift_press(b'a'), Report::Keyboard(key(0x20, 0x04)));
    kb.release();
    assert_eq!(kb.press_with_modifier(b'a', 0x05), Report::Keyboard(key(0x05, 0x04)));
}

#[test]
fn modifier_press_of_uppercase_adds_left_shift() {
    let mut kb = KeyboardAndMouse::new();
    assert_eq!(kb.r_ctrl_press(b'A'), Report::Keyboard(key(0x12, 0x04)));
}

#[test]
fn write_ab_emits_four_reports() {
    let mut kb = KeyboardAndMouse::new();
    let reports = kb.write("AB");
    assert_eq!(
        reports,
        vec![
            Report::Keyboard(key(0x02, 0x04)),
            Report::Keyboard(idle()),
            Report::Keyboard(key(0x02, 0x05)),
            Report::Keyboard(idle()),
        ]
    );
    assert_eq!(kb.key_report(), idle());
}

#[test]
fn write_empty_text_emits_nothing_and_keeps_the_state() {
    let mut kb = KeyboardAndMouse::new();
    kb.alt_press(b'x');
    let before = kb.key_report();
    assert_eq!(kb.write(""), vec![]);
    assert_eq!(kb.key_report(), before);
}

#[test]
fn write_first_press_builds_on_held_modifiers() {
    let mut kb = KeyboardAndMouse::new();
    kb.ctrl_press(b'a');
    let reports = kb.write("bc");
    assert_eq!(
        reports,
        vec![
            Report::Keyboard(key(0x01, 0x05)),
            Report::Keyboard(idle()),
            Report::Keyboard(key(0, 0x06)),
            Report::Keyboard(idle()),
        ]
    );
}

#[test]
fn write_types_the_bytes_of_text_outside_ascii() {
    let mut kb = KeyboardAndMouse::new();
    let reports = kb.write("é");
    assert_eq!(
        reports,
        vec![
            Report::Keyboard(key(0, 0xc3)),
            Report::Keyboard(idle()),
            Report::Keyboard(key(0, 0xa9)),
            Report::Keyboard(idle()),
        ]
    );
}

#[test]
fn write_bytes_matches_write() {
    let mut a = KeyboardAndMouse::new();
    let mut b = KeyboardAndMouse::new();
    assert_eq!(a.write("Hi!\n"), b.write_bytes(b"Hi!\n"));
    assert_eq!(a.write("Hi!\n").len(), 8);
}

#[test]
fn send_report_carries_the_given_report() {
    let kb = KeyboardAndMouse::new();
    let r = KeyReport { modifiers: 7, reserved: 0, keys: [1, 2, 3, 4, 5, 6] };
    assert_eq!(kb.send_report(&r), Report::Keyboard(r));
}

#[test]
fn keyboard_report_bytes() {
    let r = KeyReport { modifiers: 0x22, reserved: 0, keys: [0x04, 0, 0, 0, 0, 0] };
    assert_eq!(r.as_bytes(), [0x22, 0, 0x04, 0, 0, 0, 0, 0]);
    let all = KeyReport { modifiers: 1, reserved: 2, keys: [3, 4, 5, 6, 7, 8] };
    assert_eq!(all.as_bytes(), [1, 2, 3, 4, 5, 6, 7, 8]);
    assert_eq!(Report::Keyboard(all).bytes(), vec![1, 2, 3, 4, 5, 6, 7, 8]);
    assert_eq!(Report::Keyboard(all).id(), 1);
    assert_eq!(KeyReport::new(), idle());
}

#[test]
fn report_identifiers() {
    assert_eq!(KEYBOARD_ID, 1);
    assert_eq!(MEDIA_KEYS_ID, 2);
    assert_eq!(MOUSE_ID, 3);
    assert_eq!(Report::Media(MediaKeyReport { keys: [0, 0] }).id(), 2);
    let m = MouseReport { buttons: 0, x: 0, y: 0, wheel: 0, h_wheel: 0 };
    assert_eq!(Report::Mouse(m).id(), 3);
}

#[test]
fn media_report_bytes_are_high_half_first() {
    let r = MediaKeyReport { keys: [0x08, 0x02] };
    assert_eq!(r.as_bytes(), [0x08, 0x02]);
    assert_eq!(Report::Media(r).bytes(), vec![0x08, 0x02]);
    assert_eq!(MediaKeyReport::new(), MediaKeyReport { keys: [0, 0] });
}

#[test]
fn mouse_report_bytes_are_twos_complement() {
    let r = MouseReport { buttons: 5, x: -1, y: 127, wheel: -128, h_wheel: 1 };
    assert_eq!(r.as_bytes(), [5, 0xff, 0x7f, 0x80, 1]);
    assert_eq!(Report::Mouse(r).bytes(), vec![5, 0xff, 0x7f, 0x80, 1]);
    let z = MouseReport { buttons: 0, x: 0, y: 0, wheel: 0, h_wheel: 0 };
    assert_eq!(z.as_bytes(), [0, 0, 0, 0, 0]);
}

#[test]
fn signed_byte_of_every_delta() {
    for d in i8::MIN..=i8::MAX {
        let expected = if d >= 0 { d as i32 } else { d as i32 + 256 };
        assert_eq!(vibekeys::report::signed_byte(d) as i32, expected);
    }
}
