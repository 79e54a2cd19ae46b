//! Requests to the firmware updater and the small decisions of a download.

use vstd::prelude::*;
use vstd::utf8::decode_utf8;
use vstd::utf8::is_char_boundary_iff_not_is_continuation_byte;
use vstd::utf8::is_continuation_byte;
use vstd::utf8::valid_utf8;
use vstd::utf8::valid_utf8_concat;
use vstd::utf8::valid_utf8_split;

verus! {

/// The byte that parts the fields of a request.
pub const FIELD_END: u8 = 0x0a;

/// What the updater is asked to do.
#[derive(Debug, PartialEq, Eq)]
pub enum OTAEvent {
    /// Join the network and install the firmware found at the address.
    FirmwareUpdate { ssid: String, password: String, url: String },
    /// Start the other firmware without installing anything.
    JustReboot,
}

/// Why bytes are no request.
#[derive(Clone, Copy, Debug, PartialEq, Eq)]
pub enum RequestError {
    /// The bytes are not UTF-8 text.
    InvalidUtf8,
    /// The text does not have exactly three fields.
    InvalidFormat,
}

/// A request with its texts as characters.
pub enum Request {
    FirmwareUpdate { ssid: Seq<char>, password: Seq<char>, url: Seq<char> },
    JustReboot,
}

impl View for OTAEvent {
    type V = Request;

    open spec fn view(&self) -> Request {
        match *self {
            OTAEvent::FirmwareUpdate { ssid, password, url } => Request::FirmwareUpdate {
                ssid: ssid@,
                password: password@,
                url: url@,
            },
            OTAEvent::JustReboot => Request::JustReboot,
        }
    }
}

/// The first position at or behind `from` that holds a field end; the
/// length of `data` where there is none.
pub open spec fn field_end(data: Seq<u8>, from: int) -> int
    decreases data.len() - from,
{
    if from < 0 || from >= data.len() {
        data.len() as int
    } else if data[from] == FIELD_END {
        from
    } else {
        field_end(data, from + 1)
    }
}

/// What the bytes of a request ask for. No bytes at all ask for a plain
/// restart. Otherwise the bytes must be UTF-8 text, and the text must have
/// exactly three fields, network name, password and address, parted by two
/// line feeds.
pub open spec fn parse_request(data: Seq<u8>) -> Result<Request, RequestError> {
    let a = field_end(data, 0);
    let b = field_end(data, a + 1);
    let c = field_end(data, b + 1);
    if data.len() == 0 {
        Ok(Request::JustReboot)
    } else if !valid_utf8(data) {
        Err(RequestError::InvalidUtf8)
    } else if a < data.len() && b < data.len() && c >= data.len() {
        Ok(
            Request::FirmwareUpdate {
                ssid: decode_utf8(data.subrange(0, a)),
                password: decode_utf8(data.subrange(a + 1, b)),
                url: decode_utf8(data.subrange(b + 1, data.len() as int)),
            },
        )
    } else {
        Err(RequestError::InvalidFormat)
    }
}

/// What `field_end` finds is the first field end at or behind `from`.
pub proof fn lemma_field_end_is_first(data: Seq<u8>, from: int)
    requires
        0 <= from <= data.len(),
    ensures
        from <= field_end(data, from) <= data.len(),
        field_end(data, from) < data.len() ==> data[field_end(data, from)] == FIELD_END,
        forall|i: int| from <= i < field_end(data, from) ==> data[i] != FIELD_END,
    decreases data.len() - from,
{
    if from < data.len() && data[from] != FIELD_END {
        lemma_field_end_is_first(data, from + 1);
    }
}

/// Calls `String::from_utf8` of the standard library. Claimed of it: the
/// bytes become a string exactly when they are valid UTF-8, and the string
/// then holds the characters that they encode.
#[verifier::external_body]
fn string_from_utf8(bytes: Vec<u8>) -> (r: Option<String>)
    ensures
        r is Some <==> valid_utf8(bytes@),
        r matches Some(s) ==> s@ == decode_utf8(bytes@),
{
    match String::from_utf8(bytes) {
        Ok(s) => Some(s),
        Err(_) => None,
    }
}

/// The position of the first field end at or behind `from`; the length of
/// `data` where there is none.
pub fn find_field_end(data: &[u8], from: usize) -> (r: usize)
    ensures
        r == field_end(data@, from as int),
        r <= data@.len(),
        r < data@.len() ==> from <= r && data@[r as int] == FIELD_END,
{
    if from >= data.len() {
        return data.len();
    }
    let mut i: usize = from;
    while i < data.len() && data[i] != FIELD_END
        invariant
            from <= i <= data@.len(),
            field_end(data@, from as int) == field_end(data@, i as int),
        decreases data@.len() - i,
    {
        i += 1;
    }
    i
}

/// The bytes of `data` from `from` up to `to`, as a string.
fn field(data: &[u8], from: usize, to: usize) -> (r: Option<String>)
    requires
        from <= to <= data@.len(),
    ensures
        r is Some <==> valid_utf8(data@.subrange(from as int, to as int)),
        r matches Some(s) ==> s@ == decode_utf8(data@.subrange(from as int, to as int)),
{
    let mut bytes: Vec<u8> = Vec::new();
    let mut i: usize = from;
    while i < to
        invariant
            from <= i <= to <= data@.len(),
            bytes@ == data@.subrange(from as int, i as int),
        decreases to - i,
    {
        bytes.push(data[i]);
        i += 1;
        assert(bytes@ =~= data@.subrange(from as int, i as int));
    }
    string_from_utf8(bytes)
}

proof fn lemma_field_end_is_no_continuation()
    ensures
        !is_continuation_byte(FIELD_END),
        valid_utf8(seq![FIELD_END]),
{
    assert(0x0au8 & 0xC0 != 0x80) by (bit_vector);
    assert(0x0au8 & 0x80 == 0) by (bit_vector);
    reveal_with_fuel(valid_utf8, 2);
    let one = seq![FIELD_END];
    assert(one.len() == 1);
    assert(one[0] == 0x0a);
    assert(vstd::utf8::is_leading_byte_width_1(one[0]));
    assert(vstd::utf8::pop_first_scalar(one) =~= Seq::<u8>::empty());
}

/// Text parted at a field end is valid exactly when both parts are.
proof fn lemma_valid_around_field_end(data: Seq<u8>, at: int)
    requires
        0 <= at < data.len(),
        data[at] == FIELD_END,
    ensures
        valid_utf8(data) <==> valid_utf8(data.subrange(0, at)) && valid_utf8(
            data.subrange(at + 1, data.len() as int),
        ),
{
    lemma_field_end_is_no_continuation();
    let head = data.subrange(0, at);
    let tail = data.subrange(at + 1, data.len() as int);
    let rest = data.subrange(at, data.len() as int);
    assert(rest =~= seq![FIELD_END] + tail);
    assert(data =~= head + rest);
    if valid_utf8(data) {
        is_char_boundary_iff_not_is_continuation_byte(data, at);
        valid_utf8_split(data, at);
        assert(valid_utf8(rest));
        assert(vstd::utf8::is_leading_byte_width_1(rest[0]));
        assert(vstd::utf8::pop_first_scalar(rest) =~= tail);
        assert(valid_utf8(tail));
    }
    if valid_utf8(head) && valid_utf8(tail) {
        valid_utf8_concat(seq![FIELD_END], tail);
        valid_utf8_concat(head, rest);
    }
}

/// Reads a request to the updater.
pub fn parse_firmware_request(data: &[u8]) -> (r: Result<OTAEvent, RequestError>)
    ensures
        match r {
            Ok(event) => parse_request(data@) == Ok::<Request, RequestError>(event@),
            Err(e) => parse_request(data@) == Err::<Request, RequestError>(e),
        },
{
    if data.len() == 0 {
        return Ok(OTAEvent::JustReboot);
    }
    assert(data@.subrange(0, data@.len() as int) =~= data@);
    if field(data, 0, data.len()).is_none() {
        return Err(RequestError::InvalidUtf8);
    }
    let a = find_field_end(data, 0);
    if a >= data.len() {
        return Err(RequestError::InvalidFormat);
    }
    let b = find_field_end(data, a + 1);
    if b >= data.len() {
        return Err(RequestError::InvalidFormat);
    }
    let c = find_field_end(data, b + 1);
    if c < data.len() {
        return Err(RequestError::InvalidFormat);
    }
    proof {
        let rest = data@.subrange(a + 1, data@.len() as int);
        lemma_valid_around_field_end(data@, a as int);
        lemma_valid_around_field_end(rest, b - a - 1);
        assert(rest.subrange(0, b - a - 1) =~= data@.subrange(a + 1, b as int));
        assert(rest.subrange(b - a, rest.len() as int) =~= data@.subrange(
            b + 1,
            data@.len() as int,
        ));
    }
    let ssid = field(data, 0, a);
    let password = field(data, a + 1, b);
    let url = field(data, b + 1, data.len());
    match (ssid, password, url) {
        (Some(ssid), Some(password), Some(url)) => Ok(
            OTAEvent::FirmwareUpdate { ssid, password, url },
        ),
        _ => Err(RequestError::InvalidUtf8),
    }
}

/// Whether a response status stands for success: 200 to 299.
pub fn http_status_ok(status: u16) -> (ok: bool)
    ensures
        ok == (200 <= status <= 299),
{
    !(status > 299 || status < 200)
}

/// Whether progress is announced once `total` bytes have arrived, and the
/// number of kilobytes to announce: at every full multiple of 4096 bytes.
pub fn progress_kb(total: usize) -> (r: Option<usize>)
    ensures
        r is Some <==> total % 4096 == 0,
        r matches Some(kb) ==> kb == total / 1024,
{
    if total % 4096 == 0 {
        Some(total / 1024)
    } else {
        None
    }
}

} // verus!
