//! From 7-bit characters to HID keyboard usage codes, on the US layout.

use vstd::prelude::*;

verus! {

/// Flag bit of a table entry: the character needs the shift modifier.
pub const SHIFT: u8 = 0x80;

/// The tab character.
pub const CHAR_TAB: u8 = 0x09;

/// The line feed character, which types enter.
pub const CHAR_ENTER: u8 = 0x0a;

/// The escape character.
pub const CHAR_ESC: u8 = 0x1b;

/// Number of characters the table covers.
pub const ASCII_MAP_LEN: usize = 128;

/// One entry per 7-bit character: the usage code in the low seven bits,
/// `SHIFT` in the top bit where the character is typed with shift held.
pub const ASCII_MAP: [u8; 128] = [
    0x00,  // NUL
    0x00,  // SOH
    0x00,  // STX
    0x00,  // ETX
    0x00,  // EOT
    0x00,  // ENQ
    0x00,  // ACK
    0x00,  // BEL
    0x2a,  // BS   Backspace
    0x2b,  // TAB  Tab
    0x28,  // LF   Enter
    0x00,  // VT
    0x00,  // FF
    0x00,  // CR
    0x00,  // SO
    0x00,  // SI
    0x00,  // DLE
    0x00,  // DC1
    0x00,  // DC2
    0x00,  // DC3
    0x00,  // DC4
    0x00,  // NAK
    0x00,  // SYN
    0x00,  // ETB
    0x00,  // CAN
    0x00,  // EM
    0x00,  // SUB
    0x29,  // ESC
    0x00,  // FS
    0x00,  // GS
    0x00,  // RS
    0x00,  // US
    0x2c,  // ' '
    0x1e | SHIFT,  // !
    0x34 | SHIFT,  // "
    0x20 | SHIFT,  // #
    0x21 | SHIFT,  // $
    0x22 | SHIFT,  // %
    0x24 | SHIFT,  // &
    0x34,  // '
    0x26 | SHIFT,  // (
    0x27 | SHIFT,  // )
    0x25 | SHIFT,  // *
    0x2e | SHIFT,  // +
    0x36,  // ,
    0x2d,  // -
    0x37,  // .
    0x38,  // /
    0x27,  // 0
    0x1e,  // 1
    0x1f,  // 2
    0x20,  // 3
    0x21,  // 4
    0x22,  // 5
    0x23,  // 6
    0x24,  // 7
    0x25,  // 8
    0x26,  // 9
    0x33 | SHIFT,  // :
    0x33,  // ;
    0x36 | SHIFT,  // <
    0x2e,  // =
    0x37 | SHIFT,  // >
    0x38 | SHIFT,  // ?
    0x1f | SHIFT,  // @
    0x04 | SHIFT,  // A
    0x05 | SHIFT,  // B
    0x06 | SHIFT,  // C
    0x07 | SHIFT,  // D
    0x08 | SHIFT,  // E
    0x09 | SHIFT,  // F
    0x0a | SHIFT,  // G
    0x0b | SHIFT,  // H
    0x0c | SHIFT,  // I
    0x0d | SHIFT,  // J
    0x0e | SHIFT,  // K
    0x0f | SHIFT,  // L
    0x10 | SHIFT,  // M
    0x11 | SHIFT,  // N
    0x12 | SHIFT,  // O
    0x13 | SHIFT,  // P
    0x14 | SHIFT,  // Q
    0x15 | SHIFT,  // R
    0x16 | SHIFT,  // S
    0x17 | SHIFT,  // T
    0x18 | SHIFT,  // U
    0x19 | SHIFT,  // V
    0x1a | SHIFT,  // W
    0x1b | SHIFT,  // X
    0x1c | SHIFT,  // Y
    0x1d | SHIFT,  // Z
    0x2f,  // [
    0x31,  // backslash
    0x30,  // ]
    0x23 | SHIFT,  // ^
    0x2d | SHIFT,  // _
    0x35,  // `
    0x04,  // a
    0x05,  // b
    0x06,  // c
    0x07,  // d
    0x08,  // e
    0x09,  // f
    0x0a,  // g
    0x0b,  // h
    0x0c,  // i
    0x0d,  // j
    0x0e,  // k
    0x0f,  // l
    0x10,  // m
    0x11,  // n
    0x12,  // o
    0x13,  // p
    0x14,  // q
    0x15,  // r
    0x16,  // s
    0x17,  // t
    0x18,  // u
    0x19,  // v
    0x1a,  // w
    0x1b,  // x
    0x1c,  // y
    0x1d,  // z
    0x2f | SHIFT,  // {
    0x31 | SHIFT,  // |
    0x30 | SHIFT,  // }
    0x35 | SHIFT,  // ~
    0x00,  // DEL
];

/// The character that the same key of a US keyboard gives without shift.
/// A character that needs no shift is its own base.
pub open spec fn unshifted(c: u8) -> u8 {
    if 0x41 <= c <= 0x5a {
        (c + 0x20) as u8
    } else if c == 0x21 {
        0x31  // ! on 1
    } else if c == 0x40 {
        0x32  // @ on 2
    } else if c == 0x23 {
        0x33  // # on 3
    } else if c == 0x24 {
        0x34  // $ on 4
    } else if c == 0x25 {
        0x35  // % on 5
    } else if c == 0x5e {
        0x36  // ^ on 6
    } else if c == 0x26 {
        0x37  // & on 7
    } else if c == 0x2a {
        0x38  // * on 8
    } else if c == 0x28 {
        0x39  // ( on 9
    } else if c == 0x29 {
        0x30  // ) on 0
    } else if c == 0x5f {
        0x2d  // _ on -
    } else if c == 0x2b {
        0x3d  // + on =
    } else if c == 0x7b {
        0x5b  // { on [
    } else if c == 0x7d {
        0x5d  // } on ]
    } else if c == 0x7c {
        0x5c  // | on backslash
    } else if c == 0x3a {
        0x3b  // : on ;
    } else if c == 0x22 {
        0x27  // " on '
    } else if c == 0x3c {
        0x2c  // < on ,
    } else if c == 0x3e {
        0x2e  // > on .
    } else if c == 0x3f {
        0x2f  // ? on /
    } else if c == 0x7e {
        0x60  // ~ on `
    } else {
        c
    }
}

/// The usage code of the key that types `c` without shift; 0 where no key does.
pub open spec fn base_usage(c: u8) -> u8 {
    if 0x61 <= c <= 0x7a {
        (0x04 + (c - 0x61)) as u8  // a..z
    } else if 0x31 <= c <= 0x39 {
        (0x1e + (c - 0x31)) as u8  // 1..9
    } else if c == 0x30 {
        0x27  // 0
    } else if c == 0x0a {
        0x28  // Enter
    } else if c == 0x1b {
        0x29  // Escape
    } else if c == 0x08 {
        0x2a  // Backspace
    } else if c == 0x09 {
        0x2b  // Tab
    } else if c == 0x20 {
        0x2c  // Space
    } else if c == 0x2d {
        0x2d  // -
    } else if c == 0x3d {
        0x2e  // =
    } else if c == 0x5b {
        0x2f  // [
    } else if c == 0x5d {
        0x30  // ]
    } else if c == 0x5c {
        0x31  // backslash
    } else if c == 0x3b {
        0x33  // ;
    } else if c == 0x27 {
        0x34  // '
    } else if c == 0x60 {
        0x35  // `
    } else if c == 0x2c {
        0x36  // ,
    } else if c == 0x2e {
        0x37  // .
    } else if c == 0x2f {
        0x38  // /
    } else {
        0x00
    }
}

/// Whether `value` is looked up in the table. Any other value is taken as a
/// usage code already.
pub open spec fn is_mapped(value: u8) -> bool {
    value < 128
}

/// The usage code that `value` resolves to.
pub open spec fn usage_code(value: u8) -> u8 {
    if is_mapped(value) {
        base_usage(unshifted(value))
    } else {
        value
    }
}

/// Whether `value` is typed with the shift modifier held.
pub open spec fn needs_shift(value: u8) -> bool {
    is_mapped(value) && unshifted(value) != value
}

/// The usage code that a table entry holds.
pub open spec fn entry_usage(entry: u8) -> u8 {
    if entry >= 0x80 {
        (entry - 0x80) as u8
    } else {
        entry
    }
}

/// The shift flag that a table entry holds.
pub open spec fn entry_shift(entry: u8) -> bool {
    entry >= 0x80
}

proof fn lemma_shift_flag(u: u8)
    by (bit_vector)
    requires
        u < 0x80,
    ensures
        u | 0x80u8 == u + 0x80,
{
}

proof fn lemma_split_entry(e: u8)
    by (bit_vector)
    ensures
        (e & 0x80u8 > 0) == (e >= 0x80),
        e & !0x80u8 == (if e >= 0x80 { (e - 0x80) as u8 } else { e }),
{
}

/// Every entry of the table holds what the layout says of its character.
pub proof fn lemma_table_matches_layout(c: u8)
    requires
        c < 128,
    ensures
        entry_usage(ASCII_MAP[c as int]) == usage_code(c),
        entry_shift(ASCII_MAP[c as int]) == needs_shift(c),
{
    assert forall|u: u8| u < 0x80 implies #[trigger] (u | 0x80u8) == u + 0x80 by {
        lemma_shift_flag(u);
    }
}

/// An uppercase letter is typed with shift on the key of its lowercase
/// letter, which itself needs no shift.
pub proof fn lemma_uppercase_is_shifted_lowercase(c: u8)
    requires
        0x41 <= c <= 0x5a,
    ensures
        needs_shift(c),
        !needs_shift((c + 0x20) as u8),
        usage_code(c) == usage_code((c + 0x20) as u8),
        usage_code(c) == 0x04 + (c - 0x41),
{
}

/// The usage code of a character of the table is one of the 101 keys that
/// a keyboard report can name.
pub proof fn lemma_mapped_usage_is_a_key(c: u8)
    requires
        c < 128,
    ensures
        usage_code(c) <= 0x65,
{
}

/// A value beyond the table is its own usage code and never asks for shift.
pub proof fn lemma_raw_value_passes_through(value: u8)
    requires
        value >= 128,
    ensures
        usage_code(value) == value,
        !needs_shift(value),
{
}

/// Resolves a character value to its usage code and shift flag.
pub fn translate(value: u8) -> (r: (u8, bool))
    ensures
        r.0 == usage_code(value),
        r.1 == needs_shift(value),
{
    if value as usize >= ASCII_MAP_LEN {
        return (value, false);
    }
    let entry: u8 = ASCII_MAP[value as usize];
    proof {
        lemma_table_matches_layout(value);
        lemma_split_entry(entry);
    }
    ((entry & !SHIFT), (entry & SHIFT) > 0)
}

} // verus!
