//! The three input reports and their wire layouts.

use vstd::prelude::*;
use crate::keycode::lemma_uppercase_is_shifted_lowercase;
use crate::keycode::needs_shift;
use crate::keycode::usage_code;

verus! {

/// Modifier flag: left control.
pub const MOD_LEFT_CTRL: u8 = 0x01;

/// Modifier flag: left shift.
pub const MOD_LEFT_SHIFT: u8 = 0x02;

/// Modifier flag: left alt.
pub const MOD_LEFT_ALT: u8 = 0x04;

/// Modifier flag: left gui.
pub const MOD_LEFT_GUI: u8 = 0x08;

/// Modifier flag: right control.
pub const MOD_RIGHT_CTRL: u8 = 0x10;

/// Modifier flag: right shift.
pub const MOD_RIGHT_SHIFT: u8 = 0x20;

/// Report identifier of the keyboard report.
pub const KEYBOARD_ID: u8 = 0x01;

/// Report identifier of the media (consumer control) report.
pub const MEDIA_KEYS_ID: u8 = 0x02;

/// Report identifier of the mouse report.
pub const MOUSE_ID: u8 = 0x03;

/// Media key: next track.
pub const KEY_MEDIA_NEXT_TRACK: [u8; 2] = [1, 0];

/// Media key: previous track.
pub const KEY_MEDIA_PREVIOUS_TRACK: [u8; 2] = [2, 0];

/// Media key: stop.
pub const KEY_MEDIA_STOP: [u8; 2] = [4, 0];

/// Media key: play or pause.
pub const KEY_MEDIA_PLAY_PAUSE: [u8; 2] = [8, 0];

/// Media key: mute.
pub const KEY_MEDIA_MUTE: [u8; 2] = [16, 0];

/// Media key: volume up.
pub const KEY_MEDIA_VOLUME_UP: [u8; 2] = [32, 0];

/// Media key: volume down.
pub const KEY_MEDIA_VOLUME_DOWN: [u8; 2] = [64, 0];

/// Media key: browser home.
pub const KEY_MEDIA_WWW_HOME: [u8; 2] = [128, 0];

/// Media key: file browser of the local machine.
pub const KEY_MEDIA_LOCAL_MACHINE_BROWSER: [u8; 2] = [0, 1];

/// Media key: calculator.
pub const KEY_MEDIA_CALCULATOR: [u8; 2] = [0, 2];

/// Media key: browser bookmarks.
pub const KEY_MEDIA_WWW_BOOKMARKS: [u8; 2] = [0, 4];

/// Media key: browser search.
pub const KEY_MEDIA_WWW_SEARCH: [u8; 2] = [0, 8];

/// Media key: browser stop.
pub const KEY_MEDIA_WWW_STOP: [u8; 2] = [0, 16];

/// Media key: browser back.
pub const KEY_MEDIA_WWW_BACK: [u8; 2] = [0, 32];

/// Media key: media selection.
pub const KEY_MEDIA_MEDIA_SELECT: [u8; 2] = [0, 64];

/// Media key: mail.
pub const KEY_MEDIA_MAIL: [u8; 2] = [0, 128];

/// Mouse button: left.
pub const MOUSE_LEFT: u8 = 1;

/// Mouse button: right.
pub const MOUSE_RIGHT: u8 = 2;

/// Mouse button: middle.
pub const MOUSE_MIDDLE: u8 = 4;

/// Mouse button: back.
pub const MOUSE_BACK: u8 = 8;

/// Mouse button: forward.
pub const MOUSE_FORWARD: u8 = 16;

/// All five mouse buttons.
pub const MOUSE_ALL: u8 = 0x1f;

/// Least time between two reports, in milliseconds. Whoever delivers the
/// reports waits this long after each one.
pub const REPORT_INTERVAL_MS: u32 = 7;

/// Keyboard report: modifier flags, a reserved byte and six key slots.
#[derive(Clone, Copy, Debug, PartialEq, Eq)]
pub struct KeyReport {
    pub modifiers: u8,
    pub reserved: u8,
    pub keys: [u8; 6],
}

/// Media report: sixteen usage flags in two bytes, in the order in which
/// they are sent.
#[derive(Clone, Copy, Debug, PartialEq, Eq)]
pub struct MediaKeyReport {
    pub keys: [u8; 2],
}

/// Mouse report: button mask and four relative movements.
#[derive(Clone, Copy, Debug, PartialEq, Eq)]
pub struct MouseReport {
    pub buttons: u8,
    pub x: i8,
    pub y: i8,
    pub wheel: i8,
    pub h_wheel: i8,
}

/// One report on its way to the host.
#[derive(Clone, Copy, Debug, PartialEq, Eq)]
pub enum Report {
    Keyboard(KeyReport),
    Media(MediaKeyReport),
    Mouse(MouseReport),
}

/// The byte that carries a signed movement: its two's complement.
pub open spec fn delta_byte(d: i8) -> u8 {
    if d >= 0 {
        d as u8
    } else {
        (d + 256) as u8
    }
}

impl KeyReport {
    /// The report with no modifier and no key.
    pub open spec fn idle() -> KeyReport {
        KeyReport { modifiers: 0, reserved: 0, keys: [0u8, 0u8, 0u8, 0u8, 0u8, 0u8] }
    }

    /// Nothing but slot 0 holds a key, and the reserved byte is zero.
    pub open spec fn single_key(&self) -> bool {
        &&& self.reserved == 0
        &&& forall|i: int| 1 <= i < 6 ==> self.keys[i] == 0
    }

    /// The report after `bits` are added to the modifiers.
    pub open spec fn with_modifiers(self, bits: u8) -> KeyReport {
        KeyReport { modifiers: self.modifiers | bits, reserved: self.reserved, keys: self.keys }
    }

    /// The report after `value` is pressed: its usage code in slot 0, and
    /// left shift added where the character needs it.
    pub open spec fn pressed(self, value: u8) -> KeyReport {
        KeyReport {
            modifiers: if needs_shift(value) {
                self.modifiers | MOD_LEFT_SHIFT
            } else {
                self.modifiers
            },
            reserved: self.reserved,
            keys: [
                usage_code(value),
                self.keys[1],
                self.keys[2],
                self.keys[3],
                self.keys[4],
                self.keys[5],
            ],
        }
    }

    /// The report after a release: no modifier, no key.
    pub open spec fn released(self) -> KeyReport {
        KeyReport { modifiers: 0, reserved: self.reserved, keys: [0u8, 0u8, 0u8, 0u8, 0u8, 0u8] }
    }

    /// The eight bytes sent: modifiers, reserved, then the six slots.
    pub open spec fn wire(&self) -> Seq<u8> {
        seq![self.modifiers, self.reserved] + self.keys@
    }

    pub fn new() -> (r: KeyReport)
        ensures
            r == KeyReport::idle(),
            r.modifiers == 0,
            r.reserved == 0,
            forall|i: int| 0 <= i < 6 ==> r.keys[i] == 0,
    {
        let r = KeyReport { modifiers: 0, reserved: 0, keys: [0u8; 6] };
        assert(r.keys =~= KeyReport::idle().keys);
        r
    }

    pub fn as_bytes(&self) -> (b: [u8; 8])
        ensures
            b@ == self.wire(),
    {
        let b: [u8; 8] = [
            self.modifiers,
            self.reserved,
            self.keys[0],
            self.keys[1],
            self.keys[2],
            self.keys[3],
            self.keys[4],
            self.keys[5],
        ];
        assert(b@ =~= self.wire());
        b
    }
}

impl MediaKeyReport {
    /// The sixteen flags as one number, first byte high.
    pub open spec fn bits(&self) -> u16 {
        mask_bits(self.keys)
    }

    /// The report that holds the flags `bits`.
    pub open spec fn from_bits(bits: u16) -> MediaKeyReport {
        MediaKeyReport { keys: [((bits & 0xFF00) >> 8) as u8, (bits & 0x00FF) as u8] }
    }

    /// The report after the flags of `mask` are set.
    pub open spec fn merged(self, mask: [u8; 2]) -> MediaKeyReport {
        MediaKeyReport::from_bits(self.bits() | mask_bits(mask))
    }

    /// The report after the flags of `mask` are cleared.
    pub open spec fn cleared(self, mask: [u8; 2]) -> MediaKeyReport {
        MediaKeyReport::from_bits(self.bits() & !mask_bits(mask))
    }

    /// The two bytes sent.
    pub open spec fn wire(&self) -> Seq<u8> {
        self.keys@
    }

    pub fn new() -> (r: MediaKeyReport)
        ensures
            r.keys[0] == 0,
            r.keys[1] == 0,
            r.bits() == 0,
    {
        let r = MediaKeyReport { keys: [0u8; 2] };
        assert(((0u8 as u16) << 8) | (0u8 as u16) == 0u16) by (bit_vector);
        r
    }

    pub fn as_bytes(&self) -> (b: [u8; 2])
        ensures
            b@ == self.wire(),
    {
        self.keys
    }
}

/// A two-byte mask as one sixteen-bit number, first byte high.
pub open spec fn mask_bits(keys: [u8; 2]) -> u16 {
    ((keys[0] as u16) << 8) | (keys[1] as u16)
}

proof fn lemma_round_trip(b: u16)
    by (bit_vector)
    ensures
        (((((b & 0xFF00) >> 8) as u8) as u16) << 8) | (((b & 0x00FF) as u8) as u16) == b,
{
}

proof fn lemma_disjoint_masks(s: u16, a: u16, b: u16)
    by (bit_vector)
    requires
        a & b == 0,
    ensures
        ((s | a) | b) & !a == (s & !a) | b,
        ((s | b) | a) & !a == (s & !a) | b,
        (s | a) | b == (s | b) | a,
        (0u16 & !a) | b == b,
{
}

proof fn lemma_shift_bit_set(m: u8)
    by (bit_vector)
    ensures
        (m | 0x02u8) & 0x02u8 == 0x02u8,
{
}

/// The flags of a report made from `bits` are `bits`.
pub proof fn lemma_from_bits_bits(bits: u16)
    ensures
        MediaKeyReport::from_bits(bits).bits() == bits,
{
    lemma_round_trip(bits);
}

/// Setting and clearing media flags works on the sixteen flags as one
/// number: a press is an OR, a release an AND-NOT.
pub proof fn lemma_media_bits(s: MediaKeyReport, mask: [u8; 2])
    ensures
        s.merged(mask).bits() == s.bits() | mask_bits(mask),
        s.cleared(mask).bits() == s.bits() & !mask_bits(mask),
{
    lemma_round_trip(s.bits() | mask_bits(mask));
    lemma_round_trip(s.bits() & !mask_bits(mask));
}

/// Media keys are held independently: with disjoint masks `a` and `b`,
/// pressing both in either order and releasing `a` leaves the flags of `b`
/// set and whatever else was set before, and from a report with no flag
/// exactly the flags of `b`.
pub proof fn lemma_media_press_press_release(s: MediaKeyReport, a: [u8; 2], b: [u8; 2])
    requires
        mask_bits(a) & mask_bits(b) == 0,
    ensures
        s.merged(a).merged(b) == s.merged(b).merged(a),
        s.merged(a).merged(b).cleared(a).bits() == (s.bits() & !mask_bits(a)) | mask_bits(b),
        s.merged(b).merged(a).cleared(a).bits() == (s.bits() & !mask_bits(a)) | mask_bits(b),
        s.bits() == 0 ==> s.merged(a).merged(b).cleared(a).bits() == mask_bits(b),
        s.bits() == 0 ==> s.merged(b).merged(a).cleared(a).bits() == mask_bits(b),
        s.bits() == 0 ==> s.merged(a).merged(b).cleared(a) == MediaKeyReport::from_bits(
            mask_bits(b),
        ),
{
    lemma_media_bits(s, a);
    lemma_media_bits(s, b);
    lemma_media_bits(s.merged(a), b);
    lemma_media_bits(s.merged(b), a);
    lemma_media_bits(s.merged(a).merged(b), a);
    lemma_media_bits(s.merged(b).merged(a), a);
    lemma_disjoint_masks(s.bits(), mask_bits(a), mask_bits(b));
}

/// A press followed by a release leaves no modifier and no key, whatever
/// was pressed and whatever the report held before.
pub proof fn lemma_press_then_release_resets(s: KeyReport, value: u8)
    ensures
        s.pressed(value).released().modifiers == 0,
        forall|i: int| 0 <= i < 6 ==> s.pressed(value).released().keys[i] == 0,
        s.reserved == 0 ==> s.pressed(value).released() == KeyReport::idle(),
{
    assert(s.pressed(value).released().keys =~= KeyReport::idle().keys);
}

/// Pressing an uppercase letter sets the left shift flag and puts the usage
/// code of its lowercase letter in slot 0.
pub proof fn lemma_press_uppercase(s: KeyReport, letter: u8)
    requires
        0x41 <= letter <= 0x5a,
    ensures
        s.pressed(letter).modifiers & MOD_LEFT_SHIFT == MOD_LEFT_SHIFT,
        s.pressed(letter).keys[0] == usage_code((letter + 0x20) as u8),
        s.pressed(letter).keys[0] == s.pressed((letter + 0x20) as u8).keys[0],
        s.modifiers == 0 ==> s.pressed(letter).modifiers == MOD_LEFT_SHIFT,
{
    lemma_uppercase_is_shifted_lowercase(letter);
    lemma_shift_bit_set(s.modifiers);
    assert(0u8 | 0x02u8 == 0x02u8) by (bit_vector);
}

impl MouseReport {
    /// The five bytes sent: buttons, then x, y, wheel and horizontal wheel.
    pub open spec fn wire(&self) -> Seq<u8> {
        seq![
            self.buttons,
            delta_byte(self.x),
            delta_byte(self.y),
            delta_byte(self.wheel),
            delta_byte(self.h_wheel),
        ]
    }

    pub fn as_bytes(&self) -> (b: [u8; 5])
        ensures
            b@ == self.wire(),
    {
        let b: [u8; 5] = [
            self.buttons,
            signed_byte(self.x),
            signed_byte(self.y),
            signed_byte(self.wheel),
            signed_byte(self.h_wheel),
        ];
        assert(b@ =~= self.wire());
        b
    }
}

/// The byte that carries `d`.
pub fn signed_byte(d: i8) -> (b: u8)
    ensures
        b == delta_byte(d),
{
    let b: u8 = d as u8;
    assert(d as u8 == (if d >= 0 { d as u8 } else { (d + 256) as u8 })) by (bit_vector);
    b
}

impl Report {
    /// The identifier under which the report is sent.
    pub open spec fn spec_id(&self) -> u8 {
        match *self {
            Report::Keyboard(_) => KEYBOARD_ID,
            Report::Media(_) => MEDIA_KEYS_ID,
            Report::Mouse(_) => MOUSE_ID,
        }
    }

    /// The bytes sent.
    pub open spec fn wire(&self) -> Seq<u8> {
        match *self {
            Report::Keyboard(k) => k.wire(),
            Report::Media(m) => m.wire(),
            Report::Mouse(m) => m.wire(),
        }
    }

    pub fn id(&self) -> (id: u8)
        ensures
            id == self.spec_id(),
    {
        match self {
            Report::Keyboard(_) => KEYBOARD_ID,
            Report::Media(_) => MEDIA_KEYS_ID,
            Report::Mouse(_) => MOUSE_ID,
        }
    }

    pub fn bytes(&self) -> (b: Vec<u8>)
        ensures
            b@ == self.wire(),
    {
        let mut out: Vec<u8> = Vec::new();
        match self {
            Report::Keyboard(k) => {
                let a = k.as_bytes();
                let mut i: usize = 0;
                while i < 8
                    invariant
                        i <= 8,
                        out@ == a@.subrange(0, i as int),
                    decreases 8 - i,
                {
                    out.push(a[i]);
                    i += 1;
                    assert(out@ =~= a@.subrange(0, i as int));
                }
                assert(a@.subrange(0, 8) =~= a@);
            },
            Report::Media(m) => {
                let a = m.as_bytes();
                out.push(a[0]);
                out.push(a[1]);
                assert(out@ =~= a@);
            },
            Report::Mouse(m) => {
                let a = m.as_bytes();
                let mut i: usize = 0;
                while i < 5
                    invariant
                        i <= 5,
                        out@ == a@.subrange(0, i as int),
                    decreases 5 - i,
                {
                    out.push(a[i]);
                    i += 1;
                    assert(out@ =~= a@.subrange(0, i as int));
                }
                assert(a@.subrange(0, 5) =~= a@);
            },
        }
        out
    }
}

/// One step of a delivery: hand a report to the host, or wait.
#[derive(Clone, Copy, Debug, PartialEq, Eq)]
pub enum Step {
    /// Deliver the report.
    Notify(Report),
    /// Wait so many milliseconds.
    Wait(u32),
}

/// The delivery of `reports`: each report in order, and after each one the
/// wait of `REPORT_INTERVAL_MS`.
pub open spec fn paced_steps(reports: Seq<Report>) -> Seq<Step> {
    Seq::new(
        2 * reports.len(),
        |j: int|
            if j % 2 == 0 {
                Step::Notify(reports[j / 2])
            } else {
                Step::Wait(REPORT_INTERVAL_MS)
            },
    )
}

/// Plans the delivery of `reports`, so that no report follows another
/// sooner than the interval allows.
pub fn paced(reports: &[Report]) -> (steps: Vec<Step>)
    ensures
        steps@ == paced_steps(reports@),
{
    let mut steps: Vec<Step> = Vec::new();
    let mut i: usize = 0;
    while i < reports.len()
        invariant
            i <= reports.len(),
            steps@.len() == 2 * i,
            forall|j: int| 0 <= j < 2 * i ==> steps@[j] == paced_steps(reports@)[j],
        decreases reports.len() - i,
    {
        steps.push(Step::Notify(reports[i]));
        steps.push(Step::Wait(REPORT_INTERVAL_MS));
        i += 1;
    }
    assert(steps@ =~= paced_steps(reports@));
    steps
}

} // verus!
