//! What each button of the device does.

use vstd::prelude::*;
use vstd::string::is_ascii;
use vstd::string::is_ascii_spec_bytes;
use vstd::string::StringSliceAdditionalSpecFns;
use vstd::utf8::encode_utf8;
use crate::bt_keyboard::after_typing;
use crate::bt_keyboard::typed;
use crate::bt_keyboard::ControllerCommand;
use crate::bt_keyboard::KeyboardAndMouse;
use crate::keycode::CHAR_ENTER;
use crate::keycode::CHAR_ESC;
use crate::keycode::CHAR_TAB;
use crate::report::KeyReport;
use crate::report::Report;
use crate::report::MOD_LEFT_SHIFT;
use crate::report::MOD_RIGHT_CTRL;

verus! {

/// What a button does when it goes down.
#[derive(Debug, PartialEq, Eq)]
pub enum Action {
    /// Type the text, byte by byte.
    TypeLiteral(String),
    /// Press the value with the modifier flags held.
    SendKeycode(u8, u8),
    /// Press the value alone. A value above the table goes out as the
    /// usage code that it is.
    SendRawUsageCode(u8),
    /// Nothing.
    NoOp,
}

/// An action with its text as the bytes that are typed.
pub enum Binding {
    TypeLiteral(Seq<u8>),
    SendKeycode(u8, u8),
    SendRawUsageCode(u8),
    NoOp,
}

impl View for Action {
    type V = Binding;

    open spec fn view(&self) -> Binding {
        match *self {
            Action::TypeLiteral(text) => Binding::TypeLiteral(encode_utf8(text@)),
            Action::SendKeycode(code, modifiers) => Binding::SendKeycode(code, modifiers),
            Action::SendRawUsageCode(code) => Binding::SendRawUsageCode(code),
            Action::NoOp => Binding::NoOp,
        }
    }
}

/// The buttons and their actions, in order. Where a button stands more than
/// once, its first entry counts.
pub struct ButtonActionTable {
    pub entries: Vec<(u8, Action)>,
}

impl View for ButtonActionTable {
    type V = Seq<(u8, Binding)>;

    open spec fn view(&self) -> Seq<(u8, Binding)> {
        Seq::new(self.entries@.len(), |i: int| (self.entries@[i].0, self.entries@[i].1@))
    }
}

/// Whether `table` holds an entry for `button`.
pub open spec fn is_bound(table: Seq<(u8, Binding)>, button: u8) -> bool {
    exists|i: int| 0 <= i < table.len() && (#[trigger] table[i]).0 == button
}

/// The action of the first entry for `button`; nothing where there is none.
pub open spec fn binding_of(table: Seq<(u8, Binding)>, button: u8) -> Binding
    decreases table.len(),
{
    if table.len() == 0 {
        Binding::NoOp
    } else if table[0].0 == button {
        table[0].1
    } else {
        binding_of(table.skip(1), button)
    }
}

/// The reports that an action emits from the keyboard state `start`.
pub open spec fn action_reports(start: KeyReport, action: Binding) -> Seq<Report> {
    match action {
        Binding::TypeLiteral(text) => typed(start, text),
        Binding::SendKeycode(code, modifiers) => seq![
            Report::Keyboard(start.with_modifiers(modifiers).pressed(code)),
        ],
        Binding::SendRawUsageCode(code) => seq![Report::Keyboard(start.pressed(code))],
        Binding::NoOp => Seq::empty(),
    }
}

/// The keyboard state that an action leaves behind.
pub open spec fn action_state(start: KeyReport, action: Binding) -> KeyReport {
    match action {
        Binding::TypeLiteral(text) => after_typing(start, text),
        Binding::SendKeycode(code, modifiers) => start.with_modifiers(modifiers).pressed(code),
        Binding::SendRawUsageCode(code) => start.pressed(code),
        Binding::NoOp => start,
    }
}

/// The reports of one button transition. Going up, any button releases the
/// whole keyboard; going down, the button's action runs.
pub open spec fn dispatch_reports(
    start: KeyReport,
    table: Seq<(u8, Binding)>,
    button: u8,
    pressed: bool,
) -> Seq<Report> {
    if pressed {
        action_reports(start, binding_of(table, button))
    } else {
        seq![Report::Keyboard(start.released())]
    }
}

/// The keyboard state after one button transition.
pub open spec fn dispatch_state(
    start: KeyReport,
    table: Seq<(u8, Binding)>,
    button: u8,
    pressed: bool,
) -> KeyReport {
    if pressed {
        action_state(start, binding_of(table, button))
    } else {
        start.released()
    }
}

/// The entry found for a button is the first one that names it.
pub proof fn lemma_binding_is_first_entry(table: Seq<(u8, Binding)>, button: u8, i: int)
    requires
        0 <= i < table.len(),
        table[i].0 == button,
        forall|j: int| 0 <= j < i ==> (#[trigger] table[j]).0 != button,
    ensures
        binding_of(table, button) == table[i].1,
    decreases i,
{
    if i > 0 {
        let rest = table.skip(1);
        assert(rest[i - 1] == table[i]);
        assert forall|j: int| 0 <= j < i - 1 implies (#[trigger] rest[j]).0 != button by {
            assert(rest[j] == table[j + 1]);
        }
        lemma_binding_is_first_entry(rest, button, i - 1);
    }
}

/// A button without an entry does nothing.
pub proof fn lemma_unbound_button_does_nothing(table: Seq<(u8, Binding)>, button: u8)
    requires
        !is_bound(table, button),
    ensures
        binding_of(table, button) == Binding::NoOp,
    decreases table.len(),
{
    if table.len() > 0 {
        let rest = table.skip(1);
        assert(table[0].0 != button);
        assert forall|j: int| 0 <= j < rest.len() implies (#[trigger] rest[j]).0 != button by {
            assert(rest[j] == table[j + 1]);
        }
        lemma_unbound_button_does_nothing(rest, button);
    }
}

/// Pressing a button that the table does not hold emits no report and
/// leaves the keyboard state as it was.
pub proof fn lemma_unbound_press_is_silent(start: KeyReport, table: Seq<(u8, Binding)>, button: u8)
    requires
        !is_bound(table, button),
    ensures
        dispatch_reports(start, table, button, true) == Seq::<Report>::empty(),
        dispatch_state(start, table, button, true) == start,
{
    lemma_unbound_button_does_nothing(table, button);
}

impl ButtonActionTable {
    /// A table without entries.
    pub fn new() -> (t: ButtonActionTable)
        ensures
            t@ == Seq::<(u8, Binding)>::empty(),
    {
        let t = ButtonActionTable { entries: Vec::new() };
        assert(t@ =~= Seq::<(u8, Binding)>::empty());
        t
    }

    /// Adds an entry behind those that are there.
    pub fn bind(&mut self, button: u8, action: Action)
        ensures
            final(self)@ == old(self)@.push((button, action@)),
    {
        self.entries.push((button, action));
        assert(self@ =~= old(self)@.push((button, action@)));
    }

    /// The position of the first entry for `button`.
    pub fn position(&self, button: u8) -> (r: Option<usize>)
        ensures
            match r {
                Some(i) => i < self@.len() && self@[i as int].0 == button && forall|j: int|
                    0 <= j < i ==> (#[trigger] self@[j]).0 != button,
                None => !is_bound(self@, button),
            },
    {
        let mut i: usize = 0;
        while i < self.entries.len()
            invariant
                i <= self.entries.len(),
                forall|j: int| 0 <= j < i ==> (#[trigger] self@[j]).0 != button,
            decreases self.entries.len() - i,
        {
            if self.entries[i].0 == button {
                return Some(i);
            }
            i += 1;
        }
        None
    }

    /// The action of `button`: that of its first entry.
    pub fn lookup(&self, button: u8) -> (r: Option<&Action>)
        ensures
            r is Some <==> is_bound(self@, button),
            r matches Some(action) ==> action@ == binding_of(self@, button),
            r is None ==> binding_of(self@, button) == Binding::NoOp,
    {
        match self.position(button) {
            Some(i) => {
                proof {
                    lemma_binding_is_first_entry(self@, button, i as int);
                }
                Some(&self.entries[i].1)
            },
            None => {
                proof {
                    lemma_unbound_button_does_nothing(self@, button);
                }
                None
            },
        }
    }
}

/// The built-in actions: button 0 types "/compact" and enter, 2 is tab,
/// 3 escape, 4 types "retry" and enter, 5 is shift with tab, 6 right control
/// alone, 7 enter; 1 and 18 do nothing.
pub open spec fn default_bindings() -> Seq<(u8, Binding)> {
    seq![
        (0u8, Binding::TypeLiteral("/compact\n".spec_bytes())),
        (1u8, Binding::NoOp),
        (2u8, Binding::SendRawUsageCode(CHAR_TAB)),
        (3u8, Binding::SendRawUsageCode(CHAR_ESC)),
        (4u8, Binding::TypeLiteral("retry\n".spec_bytes())),
        (5u8, Binding::SendKeycode(CHAR_TAB, MOD_LEFT_SHIFT)),
        (6u8, Binding::SendKeycode(0x00, MOD_RIGHT_CTRL)),
        (7u8, Binding::SendRawUsageCode(CHAR_ENTER)),
        (18u8, Binding::NoOp),
    ]
}

/// The bytes of the built-in texts.
pub proof fn lemma_builtin_texts()
    ensures
        "/compact\n".spec_bytes() == seq![
            0x2fu8,
            0x63u8,
            0x6fu8,
            0x6du8,
            0x70u8,
            0x61u8,
            0x63u8,
            0x74u8,
            0x0au8,
        ],
        "retry\n".spec_bytes() == seq![0x72u8, 0x65u8, 0x74u8, 0x72u8, 0x79u8, 0x0au8],
{
    reveal_strlit("/compact\n");
    reveal_strlit("retry\n");
    assert(is_ascii("/compact\n"));
    assert(is_ascii("retry\n"));
    is_ascii_spec_bytes("/compact\n");
    is_ascii_spec_bytes("retry\n");
}

/// An action that types an empty text emits no report and leaves the
/// keyboard state as it was.
pub proof fn lemma_empty_text_types_nothing(start: KeyReport)
    ensures
        action_reports(start, Binding::TypeLiteral(Seq::empty())) == Seq::<Report>::empty(),
        action_state(start, Binding::TypeLiteral(Seq::empty())) == start,
        encode_utf8(Seq::<char>::empty()) == Seq::<u8>::empty(),
{
    assert(typed(start, Seq::<u8>::empty()) =~= Seq::<Report>::empty());
    assert(encode_utf8(Seq::<char>::empty()) =~= Seq::<u8>::empty());
}

/// The built-in table.
pub fn default_table() -> (t: ButtonActionTable)
    ensures
        t@ == default_bindings(),
{
    let mut t = ButtonActionTable::new();
    t.bind(0, Action::TypeLiteral("/compact\n".to_owned()));
    t.bind(1, Action::NoOp);
    t.bind(2, Action::SendRawUsageCode(CHAR_TAB));
    t.bind(3, Action::SendRawUsageCode(CHAR_ESC));
    t.bind(4, Action::TypeLiteral("retry\n".to_owned()));
    t.bind(5, Action::SendKeycode(CHAR_TAB, MOD_LEFT_SHIFT));
    t.bind(6, Action::SendKeycode(0, MOD_RIGHT_CTRL));
    t.bind(7, Action::SendRawUsageCode(CHAR_ENTER));
    t.bind(18, Action::NoOp);
    assert(t@ =~= default_bindings());
    t
}

/// Runs one action on the keyboard and returns the reports it emits.
pub fn perform(keyboard: &mut KeyboardAndMouse, action: &Action) -> (r: Vec<Report>)
    ensures
        r@ == action_reports(old(keyboard)@.key, action@),
        final(keyboard)@.key == action_state(old(keyboard)@.key, action@),
        final(keyboard)@.media == old(keyboard)@.media,
        final(keyboard).wf(),
{
    match action {
        Action::TypeLiteral(text) => keyboard.write(text.as_str()),
        Action::SendKeycode(code, modifiers) => {
            let report = keyboard.press_with_modifier(*code, *modifiers);
            let mut out: Vec<Report> = Vec::new();
            out.push(report);
            assert(out@ =~= seq![report]);
            out
        },
        Action::SendRawUsageCode(code) => {
            let report = keyboard.press(*code);
            let mut out: Vec<Report> = Vec::new();
            out.push(report);
            assert(out@ =~= seq![report]);
            out
        },
        Action::NoOp => {
            let out: Vec<Report> = Vec::new();
            assert(out@ =~= Seq::<Report>::empty());
            proof {
                use_type_invariant(&*keyboard);
            }
            out
        },
    }
}

/// Handles one button transition against `table`. A button going up
/// releases the whole keyboard, whichever button it is. A button going down
/// runs its action; one that the table does not hold does nothing.
pub fn dispatch(
    keyboard: &mut KeyboardAndMouse,
    table: &ButtonActionTable,
    button: u8,
    pressed: bool,
) -> (r: Vec<Report>)
    ensures
        r@ == dispatch_reports(old(keyboard)@.key, table@, button, pressed),
        final(keyboard)@.key == dispatch_state(old(keyboard)@.key, table@, button, pressed),
        final(keyboard)@.media == old(keyboard)@.media,
        final(keyboard).wf(),
        pressed && !is_bound(table@, button) ==> r@.len() == 0 && final(keyboard)@ == old(
            keyboard
        )@,
{
    if pressed {
        match table.lookup(button) {
            Some(action) => perform(keyboard, action),
            None => {
                let out: Vec<Report> = Vec::new();
                assert(out@ =~= Seq::<Report>::empty());
                proof {
                    use_type_invariant(&*keyboard);
                }
                out
            },
        }
    } else {
        let report = keyboard.release();
        let mut out: Vec<Report> = Vec::new();
        out.push(report);
        assert(out@ =~= seq![report]);
        out
    }
}

/// Handles one button transition with the built-in actions.
pub fn handle_key_event(
    keyboard: &mut KeyboardAndMouse,
    code: u8,
    pressed: bool,
) -> (r: Vec<Report>)
    ensures
        r@ == dispatch_reports(old(keyboard)@.key, default_bindings(), code, pressed),
        final(keyboard)@.key == dispatch_state(
            old(keyboard)@.key,
            default_bindings(),
            code,
            pressed,
        ),
        final(keyboard)@.media == old(keyboard)@.media,
        final(keyboard).wf(),
{
    let table = default_table();
    dispatch(keyboard, &table, code, pressed)
}

/// The texts stored for the nine buttons of the device: 0 to 7 and 18.
#[derive(Debug, PartialEq, Eq)]
pub struct KeysMap {
    pub key0: String,
    pub key1: String,
    pub key2: String,
    pub key3: String,
    pub key4: String,
    pub key5: String,
    pub key6: String,
    pub key7: String,
    pub key18: String,
}

impl KeysMap {
    /// The actions of the stored texts: each of the nine buttons types its
    /// own text. A button whose text is empty types nothing.
    pub open spec fn bindings(&self) -> Seq<(u8, Binding)> {
        seq![
            (0u8, Binding::TypeLiteral(encode_utf8(self.key0@))),
            (1u8, Binding::TypeLiteral(encode_utf8(self.key1@))),
            (2u8, Binding::TypeLiteral(encode_utf8(self.key2@))),
            (3u8, Binding::TypeLiteral(encode_utf8(self.key3@))),
            (4u8, Binding::TypeLiteral(encode_utf8(self.key4@))),
            (5u8, Binding::TypeLiteral(encode_utf8(self.key5@))),
            (6u8, Binding::TypeLiteral(encode_utf8(self.key6@))),
            (7u8, Binding::TypeLiteral(encode_utf8(self.key7@))),
            (18u8, Binding::TypeLiteral(encode_utf8(self.key18@))),
        ]
    }

    /// The text stored for `button`, where it is one of the nine.
    pub open spec fn text_of(&self, button: u8) -> Option<Seq<char>> {
        if button == 0 {
            Some(self.key0@)
        } else if button == 1 {
            Some(self.key1@)
        } else if button == 2 {
            Some(self.key2@)
        } else if button == 3 {
            Some(self.key3@)
        } else if button == 4 {
            Some(self.key4@)
        } else if button == 5 {
            Some(self.key5@)
        } else if button == 6 {
            Some(self.key6@)
        } else if button == 7 {
            Some(self.key7@)
        } else if button == 18 {
            Some(self.key18@)
        } else {
            None
        }
    }

    /// The action of a button in the table of the stored texts is to type
    /// its text; a button that is none of the nine has no action.
    pub proof fn lemma_binding_types_the_text(&self, button: u8)
        ensures
            binding_of(self.bindings(), button) == (match self.text_of(button) {
                Some(text) => Binding::TypeLiteral(encode_utf8(text)),
                None => Binding::NoOp,
            }),
            is_bound(self.bindings(), button) == self.text_of(button).is_some(),
    {
        let table = self.bindings();
        if button == 0 {
            lemma_binding_is_first_entry(table, button, 0);
        } else if button == 1 {
            lemma_binding_is_first_entry(table, button, 1);
        } else if button == 2 {
            lemma_binding_is_first_entry(table, button, 2);
        } else if button == 3 {
            lemma_binding_is_first_entry(table, button, 3);
        } else if button == 4 {
            lemma_binding_is_first_entry(table, button, 4);
        } else if button == 5 {
            lemma_binding_is_first_entry(table, button, 5);
        } else if button == 6 {
            lemma_binding_is_first_entry(table, button, 6);
        } else if button == 7 {
            lemma_binding_is_first_entry(table, button, 7);
        } else if button == 18 {
            lemma_binding_is_first_entry(table, button, 8);
        } else {
            lemma_unbound_button_does_nothing(table, button);
        }
    }

    /// The table of the stored texts.
    pub fn table(&self) -> (t: ButtonActionTable)
        ensures
            t@ == self.bindings(),
    {
        let mut t = ButtonActionTable::new();
        t.bind(0, Action::TypeLiteral(self.key0.clone()));
        t.bind(1, Action::TypeLiteral(self.key1.clone()));
        t.bind(2, Action::TypeLiteral(self.key2.clone()));
        t.bind(3, Action::TypeLiteral(self.key3.clone()));
        t.bind(4, Action::TypeLiteral(self.key4.clone()));
        t.bind(5, Action::TypeLiteral(self.key5.clone()));
        t.bind(6, Action::TypeLiteral(self.key6.clone()));
        t.bind(7, Action::TypeLiteral(self.key7.clone()));
        t.bind(18, Action::TypeLiteral(self.key18.clone()));
        assert(t@ =~= self.bindings());
        t
    }

    /// Handles one button transition with the stored texts. A button going
    /// down types the text stored for it; a button going up releases the
    /// whole keyboard.
    pub fn apply_to_keyboard(
        &self,
        keyboard: &mut KeyboardAndMouse,
        code: u8,
        pressed: bool,
    ) -> (r: Vec<Report>)
        ensures
            r@ == dispatch_reports(old(keyboard)@.key, self.bindings(), code, pressed),
            final(keyboard)@.key == dispatch_state(
                old(keyboard)@.key,
                self.bindings(),
                code,
                pressed,
            ),
            final(keyboard)@.media == old(keyboard)@.media,
            final(keyboard).wf(),
    {
        let table = self.table();
        dispatch(keyboard, &table, code, pressed)
    }
}

/// What the device does in answer to a command.
#[derive(Debug, PartialEq, Eq)]
pub enum Response {
    /// Mark the running firmware and restart into the updater.
    Reboot,
    /// Show the text on the display.
    Display(String),
    /// Deliver the reports. Where `advertise` is set, first make sure that
    /// the device is advertising.
    Send { advertise: bool, reports: Vec<Report> },
}

/// Answers one command. A button going down or up is handled with the
/// built-in actions; only a button going down asks for advertising.
pub fn respond(keyboard: &mut KeyboardAndMouse, command: ControllerCommand) -> (r: Response)
    ensures
        match command {
            ControllerCommand::GoToOta => {
                &&& r == Response::Reboot
                &&& final(keyboard)@ == old(keyboard)@
            },
            ControllerCommand::DisplayKeyboard(text) => {
                &&& r == Response::Display(text)
                &&& final(keyboard)@ == old(keyboard)@
            },
            ControllerCommand::KeyboardPress(code) => {
                &&& r matches Response::Send { advertise, reports }
                &&& advertise
                &&& reports@ == dispatch_reports(old(keyboard)@.key, default_bindings(), code, true)
                &&& final(keyboard)@.key == dispatch_state(
                    old(keyboard)@.key,
                    default_bindings(),
                    code,
                    true,
                )
                &&& final(keyboard)@.media == old(keyboard)@.media
            },
            ControllerCommand::KeyboardRelease(code) => {
                &&& r matches Response::Send { advertise, reports }
                &&& !advertise
                &&& reports@ == dispatch_reports(
                    old(keyboard)@.key,
                    default_bindings(),
                    code,
                    false,
                )
                &&& final(keyboard)@.key == dispatch_state(
                    old(keyboard)@.key,
                    default_bindings(),
                    code,
                    false,
                )
                &&& final(keyboard)@.media == old(keyboard)@.media
            },
        },
        final(keyboard).wf(),
{
    proof {
        use_type_invariant(&*keyboard);
    }
    match command {
        ControllerCommand::GoToOta => Response::Reboot,
        ControllerCommand::DisplayKeyboard(text) => Response::Display(text),
        ControllerCommand::KeyboardPress(keycode) => {
            let reports = handle_key_event(keyboard, keycode, true);
            Response::Send { advertise: true, reports }
        },
        ControllerCommand::KeyboardRelease(keycode) => {
            let reports = handle_key_event(keyboard, keycode, false);
            Response::Send { advertise: false, reports }
        },
    }
}

} // verus!
