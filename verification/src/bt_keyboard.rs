//! Keyboard, media-key and mouse report state of the device.

use vstd::prelude::*;
use vstd::string::StringSliceAdditionalSpecFns;
use vstd::utf8::decode_utf8;
use vstd::utf8::valid_utf8;
use crate::keycode::translate;
use crate::report::KeyReport;
use crate::report::MediaKeyReport;
use crate::report::MouseReport;
use crate::report::Report;
use crate::report::lemma_from_bits_bits;
use crate::report::mask_bits;
use crate::report::MOD_LEFT_ALT;
use crate::report::MOD_LEFT_CTRL;
use crate::report::MOD_LEFT_GUI;
use crate::report::MOD_LEFT_SHIFT;
use crate::report::MOD_RIGHT_CTRL;
use crate::report::MOD_RIGHT_SHIFT;

verus! {

/// A usage code above the table, sent as it is: return.
pub const KEY_RETURN: u8 = 0xb0;

/// A usage code above the table, sent as it is: escape.
pub const KEY_ESC: u8 = 0xb1;

/// A usage code above the table, sent as it is: tab.
pub const KEY_TAB: u8 = 0xb3;

/// What the device is told to do, by the host or by its own buttons.
#[derive(Debug, PartialEq, Eq)]
pub enum ControllerCommand {
    /// Leave for the firmware updater.
    GoToOta,
    /// Show the text on the display.
    DisplayKeyboard(String),
    /// A button went down.
    KeyboardPress(u8),
    /// A button went up.
    KeyboardRelease(u8),
}

/// The command for an edge on the line of button `key`. The line is low
/// while the button is held.
pub fn key_transition(key: u8, is_low: bool) -> (r: ControllerCommand)
    ensures
        r == (if is_low {
            ControllerCommand::KeyboardPress(key)
        } else {
            ControllerCommand::KeyboardRelease(key)
        }),
{
    if is_low {
        ControllerCommand::KeyboardPress(key)
    } else {
        ControllerCommand::KeyboardRelease(key)
    }
}

/// The characters that bytes stand for when they are read leniently: the
/// text that they encode, with the replacement character U+FFFD wherever
/// they are no UTF-8.
pub uninterp spec fn lossy_text(data: Seq<u8>) -> Seq<char>;

/// Calls `String::from_utf8_lossy` of the standard library. Claimed of it:
/// the text is a function of the bytes alone, and bytes that are valid
/// UTF-8 give exactly the characters that they encode.
#[verifier::external_body]
fn string_from_utf8_lossy(data: &[u8]) -> (r: String)
    ensures
        r@ == lossy_text(data@),
        valid_utf8(data@) ==> r@ == decode_utf8(data@),
{
    String::from_utf8_lossy(data).into_owned()
}

/// The command for bytes that the host wrote to be shown: show them as
/// text, read leniently.
pub fn display_command(data: &[u8]) -> (r: ControllerCommand)
    ensures
        r matches ControllerCommand::DisplayKeyboard(text) && text@ == lossy_text(data@),
        valid_utf8(data@) ==> (r matches ControllerCommand::DisplayKeyboard(text) && text@
            == decode_utf8(data@)),
{
    ControllerCommand::DisplayKeyboard(string_from_utf8_lossy(data))
}

/// What the device currently reports: the keyboard and the media keys.
pub struct HidState {
    pub key: KeyReport,
    pub media: MediaKeyReport,
}

/// The report state of one device. Every operation returns the reports
/// that it emits, in the order in which they are to be delivered.
pub struct KeyboardAndMouse {
    key_report: KeyReport,
    media_key_report: MediaKeyReport,
}

impl View for KeyboardAndMouse {
    type V = HidState;

    closed spec fn view(&self) -> HidState {
        HidState { key: self.key_report, media: self.media_key_report }
    }
}

/// The reports of typing `text` from the keyboard state `start`: for each
/// byte a press and a release. The first press builds on `start`, every
/// later one on the released state.
pub open spec fn typed(start: KeyReport, text: Seq<u8>) -> Seq<Report> {
    Seq::new(
        2 * text.len(),
        |j: int|
            if j % 2 == 0 {
                Report::Keyboard(
                    (if j == 0 {
                        start
                    } else {
                        start.released()
                    }).pressed(text[j / 2]),
                )
            } else {
                Report::Keyboard(start.released())
            },
    )
}

/// The keyboard state after typing `text` from `start`: untouched where
/// there was nothing to type, released otherwise.
pub open spec fn after_typing(start: KeyReport, text: Seq<u8>) -> KeyReport {
    if text.len() == 0 {
        start
    } else {
        start.released()
    }
}

proof fn lemma_merge_bytes(s0: u8, s1: u8, k0: u8, k1: u8)
    by (bit_vector)
    ensures
        (((((s1 as u16) | ((s0 as u16) << 8)) | ((k1 as u16) | ((k0 as u16) << 8))) & 0xFF00)
            >> 8) as u8 == s0 | k0,
        ((((s1 as u16) | ((s0 as u16) << 8)) | ((k1 as u16) | ((k0 as u16) << 8))) & 0x00FF) as u8
            == s1 | k1,
        (s1 as u16) | ((s0 as u16) << 8) == ((s0 as u16) << 8) | (s1 as u16),
        (k1 as u16) | ((k0 as u16) << 8) == ((k0 as u16) << 8) | (k1 as u16),
{
}

proof fn lemma_clear_bytes(s0: u8, s1: u8, k0: u8, k1: u8)
    by (bit_vector)
    ensures
        (((((s1 as u16) | ((s0 as u16) << 8)) & !((k1 as u16) | ((k0 as u16) << 8))) & 0xFF00)
            >> 8) as u8 == s0 & !k0,
        ((((s1 as u16) | ((s0 as u16) << 8)) & !((k1 as u16) | ((k0 as u16) << 8))) & 0x00FF) as u8
            == s1 & !k1,
        (s1 as u16) | ((s0 as u16) << 8) == ((s0 as u16) << 8) | (s1 as u16),
        (k1 as u16) | ((k0 as u16) << 8) == ((k0 as u16) << 8) | (k1 as u16),
{
}

impl KeyboardAndMouse {
    /// Only slot 0 ever holds a key, and the reserved byte is zero. This
    /// holds of every device at all times.
    #[verifier::type_invariant]
    pub open spec fn wf(&self) -> bool {
        self@.key.single_key()
    }

    /// A device that reports nothing pressed.
    pub fn new() -> (r: KeyboardAndMouse)
        ensures
            r@.key == KeyReport::idle(),
            r@.media.keys[0] == 0,
            r@.media.keys[1] == 0,
            r@.media.bits() == 0,
            r@.media == MediaKeyReport::from_bits(0),
            r.wf(),
    {
        let media = MediaKeyReport::new();
        proof {
            assert(((0u16 & 0xFF00) >> 8) as u8 == 0u8 && (0u16 & 0x00FF) as u8 == 0u8)
                by (bit_vector);
            assert(media.keys =~= MediaKeyReport::from_bits(0).keys);
        }
        KeyboardAndMouse { key_report: KeyReport::new(), media_key_report: media }
    }

    /// The keyboard report as it stands.
    pub fn key_report(&self) -> (r: KeyReport)
        ensures
            r == self@.key,
    {
        self.key_report
    }

    /// The media report as it stands.
    pub fn media_key_report(&self) -> (r: MediaKeyReport)
        ensures
            r == self@.media,
    {
        self.media_key_report
    }

    /// Presses `char`: resolves it, adds left shift where it needs it, puts its
    /// usage code in slot 0 and emits the keyboard report.
    pub fn press(&mut self, char: u8) -> (r: Report)
        ensures
            final(self)@.key == old(self)@.key.pressed(char),
            final(self)@.media == old(self)@.media,
            final(self).wf(),
            r == Report::Keyboard(final(self)@.key),
    {
        proof {
            use_type_invariant(&*self);
        }
        let (key, shift) = translate(char);
        if shift {
            self.key_report.modifiers |= MOD_LEFT_SHIFT;
        }
        self.key_report.keys[0] = key;
        assert(self.key_report.keys =~= old(self).key_report.pressed(char).keys);
        self.send_report(&self.key_report)
    }

    /// Adds `modifier` to the modifier flags, then presses `char`.
    pub fn press_with_modifier(&mut self, char: u8, modifier: u8) -> (r: Report)
        ensures
            final(self)@.key == old(self)@.key.with_modifiers(modifier).pressed(char),
            final(self)@.media == old(self)@.media,
            final(self).wf(),
            r == Report::Keyboard(final(self)@.key),
    {
        proof {
            use_type_invariant(&*self);
        }
        self.key_report.modifiers |= modifier;
        self.press(char)
    }

    /// Presses `char` with left control held.
    pub fn ctrl_press(&mut self, char: u8) -> (r: Report)
        ensures
            final(self)@.key == old(self)@.key.with_modifiers(MOD_LEFT_CTRL).pressed(char),
            final(self)@.media == old(self)@.media,
            final(self).wf(),
            r == Report::Keyboard(final(self)@.key),
    {
        self.press_with_modifier(char, MOD_LEFT_CTRL)
    }

    /// Presses `char` with right control held.
    pub fn r_ctrl_press(&mut self, char: u8) -> (r: Report)
        ensures
            final(self)@.key == old(self)@.key.with_modifiers(MOD_RIGHT_CTRL).pressed(char),
            final(self)@.media == old(self)@.media,
            final(self).wf(),
            r == Report::Keyboard(final(self)@.key),
    {
        self.press_with_modifier(char, MOD_RIGHT_CTRL)
    }

    /// Presses `char` with left shift held.
    pub fn shift_press(&mut self, char: u8) -> (r: Report)
        ensures
            final(self)@.key == old(self)@.key.with_modifiers(MOD_LEFT_SHIFT).pressed(char),
            final(self)@.media == old(self)@.media,
            final(self).wf(),
            r == Report::Keyboard(final(self)@.key),
    {
        self.press_with_modifier(char, MOD_LEFT_SHIFT)
    }

    /// Presses `char` with right shift held.
    pub fn r_shift_press(&mut self, char: u8) -> (r: Report)
        ensures
            final(self)@.key == old(self)@.key.with_modifiers(MOD_RIGHT_SHIFT).pressed(char),
            final(self)@.media == old(self)@.media,
            final(self).wf(),
            r == Report::Keyboard(final(self)@.key),
    {
        self.press_with_modifier(char, MOD_RIGHT_SHIFT)
    }

    /// Presses `char` with left alt held.
    pub fn alt_press(&mut self, char: u8) -> (r: Report)
        ensures
            final(self)@.key == old(self)@.key.with_modifiers(MOD_LEFT_ALT).pressed(char),
            final(self)@.media == old(self)@.media,
            final(self).wf(),
            r == Report::Keyboard(final(self)@.key),
    {
        self.press_with_modifier(char, MOD_LEFT_ALT)
    }

    /// Presses `char` with left gui held.
    pub fn gui_press(&mut self, char: u8) -> (r: Report)
        ensures
            final(self)@.key == old(self)@.key.with_modifiers(MOD_LEFT_GUI).pressed(char),
            final(self)@.media == old(self)@.media,
            final(self).wf(),
            r == Report::Keyboard(final(self)@.key),
    {
        self.press_with_modifier(char, MOD_LEFT_GUI)
    }

    /// Releases everything: no modifier and no key stays, whatever was
    /// pressed. Emits the cleared keyboard report.
    pub fn release(&mut self) -> (r: Report)
        ensures
            final(self)@.key == old(self)@.key.released(),
            final(self)@.key == KeyReport::idle(),
            final(self)@.media == old(self)@.media,
            final(self).wf(),
            r == Report::Keyboard(final(self)@.key),
    {
        proof {
            use_type_invariant(&*self);
        }
        self.key_report.modifiers = 0;
        let mut i: usize = 0;
        while i < 6
            invariant
                i <= 6,
                self.key_report.modifiers == 0,
                self.key_report.reserved == 0,
                self.media_key_report == old(self).media_key_report,
                forall|j: int| 0 <= j < i ==> self.key_report.keys[j] == 0,
                forall|j: int| 1 <= j < 6 ==> self.key_report.keys[j] == 0,
            decreases 6 - i,
        {
            self.key_report.keys[i] = 0;
            i += 1;
        }
        assert(self.key_report.keys =~= KeyReport::idle().keys);
        self.send_report(&self.key_report)
    }

    /// Types `str`: for each of its bytes in order a press, then a release.
    pub fn write(&mut self, str: &str) -> (r: Vec<Report>)
        ensures
            r@ == typed(old(self)@.key, str.spec_bytes()),
            final(self)@.key == after_typing(old(self)@.key, str.spec_bytes()),
            str.spec_bytes().len() > 0 ==> final(self)@.key == KeyReport::idle(),
            final(self)@.media == old(self)@.media,
            final(self).wf(),
    {
        self.write_bytes(str.as_bytes())
    }

    /// Types `text`: for each of its bytes in order a press, then a release.
    pub fn write_bytes(&mut self, text: &[u8]) -> (r: Vec<Report>)
        ensures
            r@ == typed(old(self)@.key, text@),
            final(self)@.key == after_typing(old(self)@.key, text@),
            text@.len() > 0 ==> final(self)@.key == KeyReport::idle(),
            final(self)@.media == old(self)@.media,
            final(self).wf(),
    {
        proof {
            use_type_invariant(&*self);
        }
        let ghost start = self.key_report;
        let mut out: Vec<Report> = Vec::new();
        let mut i: usize = 0;
        assert(out@ =~= typed(start, text@.take(0)));
        assert(start.released().keys =~= KeyReport::idle().keys);
        while i < text.len()
            invariant
                i <= text.len(),
                start == old(self).key_report,
                start.single_key(),
                out@ == typed(start, text@.take(i as int)),
                self.key_report == (if i == 0 {
                    start
                } else {
                    KeyReport::idle()
                }),
                self.media_key_report == old(self).media_key_report,
            decreases text.len() - i,
        {
            let ghost before = out@;
            let down = self.press(text[i]);
            let up = self.release();
            out.push(down);
            out.push(up);
            proof {
                assert(start.released().keys =~= KeyReport::idle().keys);
                assert(start.released() == KeyReport::idle());
                let want = typed(start, text@.take(i + 1));
                assert(out@.len() == want.len());
                assert forall|j: int| 0 <= j < out@.len() implies out@[j] == want[j] by {
                    if j < 2 * i {
                        assert(out@[j] == before[j]);
                        assert(text@.take(i as int)[j / 2] == text@.take(i + 1)[j / 2]);
                    } else if j == 2 * i {
                        assert(text@.take(i + 1)[j / 2] == text@[i as int]);
                    } else {
                        assert(j == 2 * i + 1);
                    }
                }
                assert(out@ =~= want);
            }
            i += 1;
        }
        assert(text@.take(text@.len() as int) =~= text@);
        out
    }

    /// The keyboard report that carries `keys`.
    pub fn send_report(&self, keys: &KeyReport) -> (r: Report)
        ensures
            r == Report::Keyboard(*keys),
    {
        Report::Keyboard(*keys)
    }

    /// Presses media keys: sets the flags of `keys` and leaves every other
    /// flag as it was. Emits the merged media report.
    pub fn send_media_report(&mut self, keys: [u8; 2]) -> (r: Report)
        ensures
            final(self)@.media == old(self)@.media.merged(keys),
            final(self)@.media.bits() == old(self)@.media.bits() | mask_bits(keys),
            final(self)@.media.keys[0] == old(self)@.media.keys[0] | keys[0],
            final(self)@.media.keys[1] == old(self)@.media.keys[1] | keys[1],
            final(self)@.key == old(self)@.key,
            final(self).wf(),
            r == Report::Media(final(self)@.media),
    {
        proof {
            use_type_invariant(&*self);
        }
        let k_16: u16 = (keys[1] as u16) | ((keys[0] as u16) << 8);
        let state = self.media_key_report.keys;
        let mut media_key_report_16: u16 = (state[1] as u16) | ((state[0] as u16) << 8);
        media_key_report_16 |= k_16;
        proof {
            lemma_merge_bytes(state[0], state[1], keys[0], keys[1]);
            lemma_from_bits_bits(media_key_report_16);
        }
        self.media_key_report.keys[0] = ((media_key_report_16 & 0xFF00) >> 8) as u8;
        self.media_key_report.keys[1] = (media_key_report_16 & 0x00FF) as u8;
        assert(self.media_key_report.keys =~= old(self).media_key_report.merged(keys).keys);
        Report::Media(self.media_key_report)
    }

    /// Releases media keys: clears the flags of `keys` and leaves every
    /// other flag as it was. Emits the updated media report.
    pub fn release_media(&mut self, keys: [u8; 2]) -> (r: Report)
        ensures
            final(self)@.media == old(self)@.media.cleared(keys),
            final(self)@.media.bits() == old(self)@.media.bits() & !mask_bits(keys),
            final(self)@.media.keys[0] == old(self)@.media.keys[0] & !keys[0],
            final(self)@.media.keys[1] == old(self)@.media.keys[1] & !keys[1],
            final(self)@.key == old(self)@.key,
            final(self).wf(),
            r == Report::Media(final(self)@.media),
    {
        proof {
            use_type_invariant(&*self);
        }
        let k_16: u16 = (keys[1] as u16) | ((keys[0] as u16) << 8);
        let state = self.media_key_report.keys;
        let mut media_key_report_16: u16 = (state[1] as u16) | ((state[0] as u16) << 8);
        media_key_report_16 &= !k_16;
        proof {
            lemma_clear_bytes(state[0], state[1], keys[0], keys[1]);
            lemma_from_bits_bits(media_key_report_16);
        }
        self.media_key_report.keys[0] = ((media_key_report_16 & 0xFF00) >> 8) as u8;
        self.media_key_report.keys[1] = (media_key_report_16 & 0x00FF) as u8;
        assert(self.media_key_report.keys =~= old(self).media_key_report.cleared(keys).keys);
        Report::Media(self.media_key_report)
    }

    /// Composes one mouse report. The device keeps nothing of it.
    pub fn mouse_execute(
        &mut self,
        buttons: u8,
        x: i8,
        y: i8,
        wheel: i8,
        h_wheel: i8,
    ) -> (r: Report)
        ensures
            r == Report::Mouse(MouseReport { buttons, x, y, wheel, h_wheel }),
            final(self)@ == old(self)@,
            final(self).wf(),
    {
        proof {
            use_type_invariant(&*self);
        }
        Report::Mouse(MouseReport { buttons, x, y, wheel, h_wheel })
    }

    /// Moves the pointer and the wheels, with no button held.
    pub fn mouse_move(&mut self, x: i8, y: i8, wheel: i8, h_wheel: i8) -> (r: Report)
        ensures
            r == Report::Mouse(MouseReport { buttons: 0, x, y, wheel, h_wheel }),
            final(self)@ == old(self)@,
            final(self).wf(),
    {
        self.mouse_execute(0, x, y, wheel, h_wheel)
    }

    /// Clicks: one report with `button` held and no movement, then one with
    /// nothing held.
    pub fn mouse_click(&mut self, button: u8) -> (r: Vec<Report>)
        ensures
            r@ == seq![
                Report::Mouse(MouseReport { buttons: button, x: 0, y: 0, wheel: 0, h_wheel: 0 }),
                Report::Mouse(MouseReport { buttons: 0, x: 0, y: 0, wheel: 0, h_wheel: 0 }),
            ],
            final(self)@ == old(self)@,
            final(self).wf(),
    {
        let mut out: Vec<Report> = Vec::new();
        let down = self.mouse_execute(button, 0, 0, 0, 0);
        out.push(down);
        let up = self.mouse_execute(0, 0, 0, 0, 0);
        out.push(up);
        assert(out@ =~= seq![down, up]);
        out
    }
}

} // verus!
