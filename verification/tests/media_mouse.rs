use vibekeys::bt_keyboard::KeyboardAndMouse;
use vibekeys::report::{paced, KeyReport, MediaKeyReport, MouseReport, Report, Step};
use vibekeys::report::{KEY_MEDIA_MAIL, KEY_MEDIA_NEXT_TRACK, MOUSE_ALL, MOUSE_MIDDLE, REPORT_INTERVAL_MS};

const NEXT_TRACK: [u8; 2] = [1, 0];
const PLAY_PAUSE: [u8; 2] = [8, 0];
const VOLUME_UP: [u8; 2] = [32, 0];
const CALCULATOR: [u8; 2] = [0, 2];
const MAIL: [u8; 2] = [0, 128];

fn usages() -> Vec<[u8; 2]> {
    let mut all = Vec::new();
    for bit in 0..8 {
        all.push([1u8 << bit, 0]);
    }
    for bit in 0..8 {
        all.push([0, 1u8 << bit]);
    }
    all
}

#[test]
fn media_press_press_release_leaves_the_second_key() {
    let mut kb = KeyboardAndMouse::new();
    assert_eq!(kb.send_media_report(NEXT_TRACK), Report::Media(MediaKeyReport { keys: [1, 0] }));
    assert_eq!(kb.send_media_report(PLAY_PAUSE), Report::Media(MediaKeyReport { keys: [9, 0] }));
    assert_eq!(kb.release_media(NEXT_TRACK), Report::Media(MediaKeyReport { keys: [8, 0] }));
    assert_eq!(kb.media_key_report(), MediaKeyReport { keys: PLAY_PAUSE });
}

#[test]
fn media_keys_of_both_halves_are_held_together() {
    let mut kb = KeyboardAndMouse::new();
    kb.send_media_report(VOLUME_UP);
    kb.send_media_report(CALCULATOR);
    let r = kb.send_media_report(MAIL);
    assert_eq!(r, Report::Media(MediaKeyReport { keys: [32, 130] }));
    assert_eq!(r.bytes(), vec![32, 130]);
    assert_eq!(kb.release_media(CALCULATOR), Report::Media(MediaKeyReport { keys: [32, 128] }));
    assert_eq!(kb.release_media([32, 128]), Report::Media(MediaKeyReport { keys: [0, 0] }));
}

#[test]
fn media_merge_is_independent_of_press_order() {
    let all = usages();
    for a in all.iter() {
        for b in all.iter() {
            if a == b {
                continue;
            }
            let mut first = KeyboardAndMouse::new();
            first.send_media_report(*a);
            first.send_media_report(*b);
            let mut second = KeyboardAndMouse::new();
            second.send_media_report(*b);
            second.send_media_report(*a);
            assert_eq!(first.media_key_report(), second.media_key_report());
            first.release_media(*a);
            second.release_media(*a);
            assert_eq!(first.media_key_report(), MediaKeyReport { keys: *b });
            assert_eq!(second.media_key_report(), MediaKeyReport { keys: *b });
        }
    }
}

#[test]
fn media_press_twice_and_release_of_unset_key() {
    let mut kb = KeyboardAndMouse::new();
    kb.send_media_report(NEXT_TRACK);
    assert_eq!(kb.send_media_report(NEXT_TRACK), Report::Media(MediaKeyReport { keys: [1, 0] }));
    assert_eq!(kb.release_media(PLAY_PAUSE), Report::Media(MediaKeyReport { keys: [1, 0] }));
}

#[test]
fn media_keys_leave_the_keyboard_alone() {
    let mut kb = KeyboardAndMouse::new();
    kb.press(b'A');
    let before = kb.key_report();
    kb.send_media_report(NEXT_TRACK);
    kb.release_media(NEXT_TRACK);
    assert_eq!(kb.key_report(), before);
    kb.send_media_report(MAIL);
    kb.release();
    assert_eq!(kb.media_key_report(), MediaKeyReport { keys: MAIL });
    assert_eq!(kb.key_report(), KeyReport { modifiers: 0, reserved: 0, keys: [0; 6] });
}

#[test]
fn mouse_click_emits_press_then_release() {
    let mut kb = KeyboardAndMouse::new();
    let reports = kb.mouse_click(4);
    assert_eq!(
        reports,
        vec![
            Report::Mouse(MouseReport { buttons: 4, x: 0, y: 0, wheel: 0, h_wheel: 0 }),
            Report::Mouse(MouseReport { buttons: 0, x: 0, y: 0, wheel: 0, h_wheel: 0 }),
        ]
    );
    assert_eq!(reports[0].bytes(), vec![4, 0, 0, 0, 0]);
    assert_eq!(reports[1].bytes(), vec![0, 0, 0, 0, 0]);
}

#[test]
fn mouse_move_has_no_button() {
    let mut kb = KeyboardAndMouse::new();
    let r = kb.mouse_move(10, -10, 1, -1);
    assert_eq!(r, Report::Mouse(MouseReport { buttons: 0, x: 10, y: -10, wheel: 1, h_wheel: -1 }));
    assert_eq!(r.bytes(), vec![0, 10, 246, 1, 255]);
}

#[test]
fn mouse_execute_composes_the_report_and_keeps_the_state() {
    let mut kb = KeyboardAndMouse::new();
    kb.press(b'x');
    kb.send_media_report(PLAY_PAUSE);
    let keys = kb.key_report();
    let media = kb.media_key_report();
    let r = kb.mouse_execute(0x1f, 1, 2, 3, 4);
    assert_eq!(r, Report::Mouse(MouseReport { buttons: 0x1f, x: 1, y: 2, wheel: 3, h_wheel: 4 }));
    assert_eq!(kb.key_report(), keys);
    assert_eq!(kb.media_key_report(), media);
}

#[test]
fn every_report_is_followed_by_the_interval() {
    let mut kb = KeyboardAndMouse::new();
    let reports = kb.write("ab");
    let steps = paced(&reports);
    assert_eq!(REPORT_INTERVAL_MS, 7);
    assert_eq!(steps.len(), 8);
    for (i, report) in reports.iter().enumerate() {
        assert_eq!(steps[2 * i], Step::Notify(*report));
        assert_eq!(steps[2 * i + 1], Step::Wait(7));
    }
    assert_eq!(paced(&[]), vec![]);
    let click = kb.mouse_click(MOUSE_MIDDLE);
    assert_eq!(
        paced(&click),
        vec![
            Step::Notify(click[0]),
            Step::Wait(7),
            Step::Notify(click[1]),
            Step::Wait(7),
        ]
    );
}

#[test]
fn named_masks() {
    assert_eq!(KEY_MEDIA_NEXT_TRACK, NEXT_TRACK);
    assert_eq!(KEY_MEDIA_MAIL, MAIL);
    assert_eq!(MOUSE_ALL, 1 | 2 | 4 | 8 | 16);
    let named = [
        vibekeys::report::KEY_MEDIA_NEXT_TRACK,
        vibekeys::report::KEY_MEDIA_PREVIOUS_TRACK,
        vibekeys::report::KEY_MEDIA_STOP,
        vibekeys::report::KEY_MEDIA_PLAY_PAUSE,
        vibekeys::report::KEY_MEDIA_MUTE,
        vibekeys::report::KEY_MEDIA_VOLUME_UP,
        vibekeys::report::KEY_MEDIA_VOLUME_DOWN,
        vibekeys::report::KEY_MEDIA_WWW_HOME,
        vibekeys::report::KEY_MEDIA_LOCAL_MACHINE_BROWSER,
        vibekeys::report::KEY_MEDIA_CALCULATOR,
        vibekeys::report::KEY_MEDIA_WWW_BOOKMARKS,
        vibekeys::report::KEY_MEDIA_WWW_SEARCH,
        vibekeys::report::KEY_MEDIA_WWW_STOP,
        vibekeys::report::KEY_MEDIA_WWW_BACK,
        vibekeys::report::KEY_MEDIA_MEDIA_SELECT,
        vibekeys::report::KEY_MEDIA_MAIL,
    ];
    assert_eq!(named.to_vec(), usages());
}
