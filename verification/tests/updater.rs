use vibekeys::bt_keyboard::{display_command, key_transition, ControllerCommand, KeyboardAndMouse};
use vibekeys::dispatch::{respond, Response};
use vibekeys::ota::{find_field_end, http_status_ok, parse_firmware_request, progress_kb};
use vibekeys::ota::{OTAEvent, RequestError};
use vibekeys::report::{KeyReport, Report};
use vibekeys::wifi::{auth_method_for, AuthMethod, WifiError};

fn update(ssid: &str, password: &str, url: &str) -> Result<OTAEvent, RequestError> {
    Ok(OTAEvent::FirmwareUpdate {
        ssid: String::from(ssid),
        password: String::from(password),
        url: String::from(url),
    })
}

#[test]
fn empty_request_is_a_plain_restart() {
    assert_eq!(parse_firmware_request(b""), Ok(OTAEvent::JustReboot));
}

#[test]
fn request_of_three_fields() {
    assert_eq!(
        parse_firmware_request(b"home\nsecret\nhttp://host/fw.bin"),
        update("home", "secret", "http://host/fw.bin")
    );
    assert_eq!(parse_firmware_request(b"\n\n"), update("", "", ""));
    assert_eq!(parse_firmware_request(b"a\n\nc"), update("a", "", "c"));
    assert_eq!(parse_firmware_request(b"\nb\n"), update("", "b", ""));
}

#[test]
fn request_with_text_outside_ascii() {
    let data = "café\nпароль\nhttp://例え/fw".as_bytes();
    assert_eq!(parse_firmware_request(data), update("café", "пароль", "http://例え/fw"));
}

#[test]
fn request_with_other_than_three_fields_is_refused() {
    for data in [&b"x"[..], b"\n", b"a\nb", b"a\nb\nc\n", b"a\nb\nc\nd", b"\n\n\n"] {
        assert_eq!(parse_firmware_request(data), Err(RequestError::InvalidFormat));
    }
}

#[test]
fn request_that_is_not_utf8_is_refused() {
    for data in [
        &b"\xff\nb\nc"[..],
        b"a\n\xc3\nc",
        b"a\nb\n\xe4\xbe",
        b"a\xc3\n\xa9\nc",
        b"\x80",
        b"\xff",
        b"a\nb\nc\nd\xff",
    ] {
        assert_eq!(parse_firmware_request(data), Err(RequestError::InvalidUtf8));
    }
}

#[test]
fn field_ends_are_found_from_the_given_position() {
    let data = b"ab\ncd\n";
    assert_eq!(find_field_end(data, 0), 2);
    assert_eq!(find_field_end(data, 2), 2);
    assert_eq!(find_field_end(data, 3), 5);
    assert_eq!(find_field_end(data, 6), 6);
    assert_eq!(find_field_end(b"abc", 0), 3);
    assert_eq!(find_field_end(b"", 0), 0);
    assert_eq!(find_field_end(data, 7), 6);
    assert_eq!(find_field_end(data, usize::MAX), 6);
}

#[test]
fn status_from_200_to_299_is_success() {
    assert!(!http_status_ok(0));
    assert!(!http_status_ok(199));
    assert!(http_status_ok(200));
    assert!(http_status_ok(204));
    assert!(http_status_ok(299));
    assert!(!http_status_ok(300));
    assert!(!http_status_ok(404));
    assert!(!http_status_ok(u16::MAX));
}

#[test]
fn progress_is_announced_at_multiples_of_4096() {
    assert_eq!(progress_kb(0), Some(0));
    assert_eq!(progress_kb(4096), Some(4));
    assert_eq!(progress_kb(8192), Some(8));
    assert_eq!(progress_kb(1), None);
    assert_eq!(progress_kb(4095), None);
    assert_eq!(progress_kb(4097), None);
    assert_eq!(progress_kb(1024), None);
}

#[test]
fn auth_method_follows_the_password() {
    assert_eq!(auth_method_for("net", "pw"), Ok(AuthMethod::WPA2Personal));
    assert_eq!(auth_method_for("net", ""), Ok(AuthMethod::Open));
    assert_eq!(auth_method_for("", "pw"), Err(WifiError::MissingName));
    assert_eq!(auth_method_for("", ""), Err(WifiError::MissingName));
    assert_eq!(WifiError::MissingName.message(), "Missing WiFi name");
}

#[test]
fn edge_on_a_button_line() {
    assert_eq!(key_transition(3, true), ControllerCommand::KeyboardPress(3));
    assert_eq!(key_transition(3, false), ControllerCommand::KeyboardRelease(3));
    assert_eq!(key_transition(18, true), ControllerCommand::KeyboardPress(18));
}

#[test]
fn respond_to_each_command() {
    let mut kb = KeyboardAndMouse::new();
    assert_eq!(respond(&mut kb, ControllerCommand::GoToOta), Response::Reboot);
    assert_eq!(
        respond(&mut kb, ControllerCommand::DisplayKeyboard(String::from("hi"))),
        Response::Display(String::from("hi"))
    );
    let tab = KeyReport { modifiers: 0, reserved: 0, keys: [0x2b, 0, 0, 0, 0, 0] };
    assert_eq!(
        respond(&mut kb, ControllerCommand::KeyboardPress(2)),
        Response::Send { advertise: true, reports: vec![Report::Keyboard(tab)] }
    );
    assert_eq!(kb.key_report(), tab);
    let idle = KeyReport { modifiers: 0, reserved: 0, keys: [0; 6] };
    assert_eq!(
        respond(&mut kb, ControllerCommand::KeyboardRelease(7)),
        Response::Send { advertise: false, reports: vec![Report::Keyboard(idle)] }
    );
    assert_eq!(
        respond(&mut kb, ControllerCommand::KeyboardPress(42)),
        Response::Send { advertise: true, reports: vec![] }
    );
}

#[test]
fn written_bytes_become_a_display_command() {
    assert_eq!(
        display_command(b"VibeKeys"),
        ControllerCommand::DisplayKeyboard(String::from("VibeKeys"))
    );
    assert_eq!(display_command(b""), ControllerCommand::DisplayKeyboard(String::new()));
    assert_eq!(
        display_command("caf\u{e9} \u{1f496}".as_bytes()),
        ControllerCommand::DisplayKeyboard(String::from("caf\u{e9} \u{1f496}"))
    );
}

#[test]
fn written_bytes_that_are_no_utf8_are_read_leniently() {
    assert_eq!(
        display_command(b"a\xffb"),
        ControllerCommand::DisplayKeyboard(String::from("a\u{fffd}b"))
    );
    assert_eq!(
        display_command(b"Hello \xF0\x90\x80World"),
        ControllerCommand::DisplayKeyboard(String::from("Hello \u{fffd}World"))
    );
}
