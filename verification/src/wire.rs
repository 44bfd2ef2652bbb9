//! The wire codec: replies to bytes, and bytes to an array of bulk strings.

use vstd::prelude::*;

verus! {

/// Carriage return, the first byte of a line break.
pub const CR: u8 = 0x0d;

/// Line feed, the second byte of a line break.
pub const LF: u8 = 0x0a;

/// `*`, which opens the length field of an array.
pub const ARRAY_SIGIL: u8 = 0x2a;

/// `$`, which opens the length field of a bulk string.
pub const BULK_SIGIL: u8 = 0x24;

/// `+`, which opens a status line.
pub const STATUS_SIGIL: u8 = 0x2b;

/// `-`, which opens an error line.
pub const ERROR_SIGIL: u8 = 0x2d;

/// The ASCII digit `0`.
pub const ZERO: u8 = 0x30;

/// The ASCII digit `9`.
pub const NINE: u8 = 0x39;

/// Whether `b` is an ASCII decimal digit.
pub open spec fn is_digit(b: u8) -> bool {
    ZERO <= b && b <= NINE
}

/// The number that a run of ASCII digits writes in base ten.
pub open spec fn decimal_value(digits: Seq<u8>) -> nat
    decreases digits.len(),
{
    if digits.len() == 0 {
        0
    } else {
        10 * decimal_value(digits.drop_last()) + (digits.last() - ZERO) as nat
    }
}

/// The shortest base-ten writing of `n` in ASCII digits.
pub open spec fn decimal_digits(n: nat) -> Seq<u8>
    decreases n,
{
    if n < 10 {
        seq![(ZERO + n) as u8]
    } else {
        decimal_digits(n / 10).push((ZERO + n % 10) as u8)
    }
}

/// Appends the base-ten writing of `n` to `out`.
pub fn push_decimal(n: usize, out: &mut Vec<u8>)
    ensures
        final(out)@ == old(out)@ + decimal_digits(n as nat),
    decreases n,
{
    if n >= 10 {
        push_decimal(n / 10, out);
    }
    let digit: u8 = (n % 10) as u8;
    out.push(ZERO + digit);
    assert(out@ =~= old(out)@ + decimal_digits(n as nat));
}

/// Why a request was turned down.
#[derive(Clone, Copy, Debug, PartialEq, Eq)]
pub enum RequestError {
    /// The bytes are not a well-formed array of bulk strings.
    Protocol,
    /// The command is unknown or has too few arguments.
    Command,
    /// An argument does not hold the value that its place asks for.
    Value,
}

/// The byte strings that a vector of byte vectors holds, in order.
pub open spec fn byte_strings(v: Seq<Vec<u8>>) -> Seq<Seq<u8>> {
    Seq::new(v.len(), |i: int| v[i]@)
}

/// The index just behind the run of ASCII digits that starts at `pos`;
/// `pos` itself where no digit stands there.
pub open spec fn digits_end(s: Seq<u8>, pos: int) -> int
    decreases s.len() - pos,
{
    if 0 <= pos < s.len() && is_digit(s[pos]) {
        digits_end(s, pos + 1)
    } else {
        pos
    }
}

/// A length field at `pos`: the sigil, one digit or more, and a line break.
/// Gives the number written and the index behind the line break.
pub open spec fn length_field(s: Seq<u8>, pos: int, sigil: u8) -> Option<(nat, int)> {
    let first = pos + 1;
    let end = digits_end(s, first);
    if 0 <= pos < s.len() && s[pos] == sigil && first < end && end + 2 <= s.len() && s[end] == CR
        && s[end + 1] == LF {
        Some((decimal_value(s.subrange(first, end)), end + 2))
    } else {
        None
    }
}

/// A bulk string at `pos`: its length field, as many bytes as the field
/// says, and a line break. Gives the bytes and the index behind the line
/// break.
pub open spec fn bulk_string(s: Seq<u8>, pos: int) -> Option<(Seq<u8>, int)> {
    match length_field(s, pos, BULK_SIGIL) {
        Some((n, start)) => {
            let end = start + n;
            if end + 2 <= s.len() && s[end] == CR && s[end + 1] == LF {
                Some((s.subrange(start, end), end + 2))
            } else {
                None
            }
        },
        None => None,
    }
}

/// `count` bulk strings in a row, the first of them at `pos`.
pub open spec fn bulk_strings(s: Seq<u8>, pos: int, count: nat) -> Option<Seq<Seq<u8>>>
    decreases count,
{
    if count == 0 {
        Some(Seq::empty())
    } else {
        match bulk_string(s, pos) {
            Some((payload, next)) => match bulk_strings(s, next, (count - 1) as nat) {
                Some(rest) => Some(seq![payload] + rest),
                None => None,
            },
            None => None,
        }
    }
}

/// The elements of the array that `s` begins with: the array's length field
/// at index 0, then that many bulk strings. Bytes behind the array are not
/// looked at. `None` where `s` does not begin with a well-formed array.
pub open spec fn bulk_string_array(s: Seq<u8>) -> Option<Seq<Seq<u8>>> {
    match length_field(s, 0, ARRAY_SIGIL) {
        Some((count, start)) => bulk_strings(s, start, count),
        None => None,
    }
}

/// One more digit behind a run multiplies its value by ten and adds the digit.
proof fn lemma_decimal_value_step(s: Seq<u8>, first: int, i: int)
    requires
        0 <= first <= i < s.len(),
    ensures
        decimal_value(s.subrange(first, i + 1)) == 10 * decimal_value(s.subrange(first, i)) + (s[i]
            - ZERO) as nat,
{
    assert(s.subrange(first, i + 1).drop_last() =~= s.subrange(first, i));
}

/// A run of digits ends at or behind its start, and inside `s`.
proof fn lemma_digits_end_bounds(s: Seq<u8>, pos: int)
    requires
        0 <= pos,
    ensures
        pos <= digits_end(s, pos),
        digits_end(s, pos) <= s.len() || digits_end(s, pos) == pos,
    decreases s.len() - pos,
{
    if pos < s.len() && is_digit(s[pos]) {
        lemma_digits_end_bounds(s, pos + 1);
    }
}

/// Every bulk string takes room: one or more of them do not fit behind `pos`
/// unless as many bytes are left there.
pub proof fn lemma_bulk_strings_need_room(s: Seq<u8>, pos: int, count: nat)
    requires
        0 <= pos,
        bulk_strings(s, pos, count) is Some,
    ensures
        count > 0 ==> pos + count <= s.len(),
    decreases count,
{
    if count > 0 {
        let (_, next) = bulk_string(s, pos).unwrap();
        lemma_digits_end_bounds(s, pos + 1);
        lemma_bulk_strings_need_room(s, next, (count - 1) as nat);
    }
}

/// Whether `b` is an ASCII decimal digit.
pub fn is_digit_byte(b: u8) -> (r: bool)
    ensures
        r == is_digit(b),
{
    ZERO <= b && b <= NINE
}

/// Reads the run of ASCII digits that starts at `start`. Gives the index
/// behind the run and the number it writes, unless that number is larger than
/// `cap`.
pub(crate) fn scan_decimal(data: &[u8], start: usize, cap: u64) -> (r: (usize, Option<u64>))
    requires
        start <= data@.len(),
    ensures
        r.0 == digits_end(data@, start as int),
        start <= r.0 <= data@.len(),
        r.1 == if decimal_value(data@.subrange(start as int, r.0 as int)) <= cap {
            Some(decimal_value(data@.subrange(start as int, r.0 as int)) as u64)
        } else {
            None
        },
{
    let len = data.len();
    let mut i = start;
    let mut value: u64 = 0;
    let mut fits = true;
    while i < len && is_digit_byte(data[i])
        invariant
            start <= i <= len,
            len == data@.len(),
            digits_end(data@, start as int) == digits_end(data@, i as int),
            fits ==> value == decimal_value(data@.subrange(start as int, i as int)) && value <= cap,
            !fits ==> decimal_value(data@.subrange(start as int, i as int)) > cap,
        decreases len - i,
    {
        let digit = data[i] - ZERO;
        proof {
            lemma_decimal_value_step(data@, start as int, i as int);
        }
        if fits {
            let next: u128 = (value as u128) * 10 + digit as u128;
            if next <= cap as u128 {
                value = next as u64;
            } else {
                fits = false;
            }
        }
        i += 1;
    }
    if fits {
        (i, Some(value))
    } else {
        (i, None)
    }
}

/// Reads the length field at `pos`. Gives the number and the index behind the
/// field; nothing where no field stands there, or where the number is larger
/// than `data` is long, so that nothing of that length can follow.
fn read_length(data: &[u8], pos: usize, sigil: u8) -> (r: Option<(usize, usize)>)
    ensures
        match length_field(data@, pos as int, sigil) {
            Some((value, next)) => if value <= data@.len() {
                r matches Some((v, after)) && v == value && after == next
            } else {
                r is None
            },
            None => r is None,
        },
{
    let len = data.len();
    if pos >= len || data[pos] != sigil {
        return None;
    }
    let first = pos + 1;
    let (end, number) = scan_decimal(data, first, len as u64);
    if end == first || len - end < 2 {
        return None;
    }
    if data[end] != CR || data[end + 1] != LF {
        return None;
    }
    match number {
        Some(value) => Some((value as usize, end + 2)),
        None => None,
    }
}

/// Reads the bulk string at `pos`: its bytes and the index behind it.
fn read_bulk_string(data: &[u8], pos: usize) -> (r: Option<(Vec<u8>, usize)>)
    ensures
        match bulk_string(data@, pos as int) {
            Some((payload, next)) => r matches Some((bytes, after)) && bytes@ == payload && after
                == next,
            None => r is None,
        },
{
    let len = data.len();
    match read_length(data, pos, BULK_SIGIL) {
        None => None,
        Some((n, start)) => {
            if n > len - start {
                return None;
            }
            let end = start + n;
            if len - end < 2 {
                return None;
            }
            if data[end] != CR || data[end + 1] != LF {
                return None;
            }
            let payload = vstd::slice::slice_to_vec(vstd::slice::slice_subrange(data, start, end));
            Some((payload, end + 2))
        },
    }
}

/// Decodes the array of bulk strings that `data` begins with.
///
/// The array is `*`, the number of elements in decimal and a line break,
/// followed by that many bulk strings, each `$`, its length in decimal, a
/// line break, that many bytes, and a line break. Every byte of this frame
/// has to be in its place; what follows the array is left unread.
pub fn parse_bulk_string_array(data: &[u8]) -> (r: Result<Vec<Vec<u8>>, RequestError>)
    ensures
        match bulk_string_array(data@) {
            Some(elements) => r matches Ok(v) && byte_strings(v@) == elements,
            None => r == Err::<Vec<Vec<u8>>, RequestError>(RequestError::Protocol),
        },
{
    let (count, start) = match read_length(data, 0, ARRAY_SIGIL) {
        None => {
            proof {
                if let Some((count, start)) = length_field(data@, 0, ARRAY_SIGIL) {
                    if bulk_strings(data@, start, count) is Some {
                        lemma_bulk_strings_need_room(data@, start, count);
                    }
                }
            }
            return Err(RequestError::Protocol);
        },
        Some(field) => field,
    };
    let mut elements: Vec<Vec<u8>> = Vec::new();
    let mut pos = start;
    let mut i: usize = 0;
    while i < count
        invariant
            i <= count,
            elements.len() == i,
            bulk_string_array(data@) == bulk_strings(data@, start as int, count as nat),
            bulk_strings(data@, start as int, count as nat) == match bulk_strings(
                data@,
                pos as int,
                (count - i) as nat,
            ) {
                Some(rest) => Some(byte_strings(elements@) + rest),
                None => None,
            },
        decreases count - i,
    {
        match read_bulk_string(data, pos) {
            None => {
                assert(bulk_strings(data@, pos as int, (count - i) as nat) is None);
                return Err(RequestError::Protocol);
            },
            Some((payload, next)) => {
                proof {
                    let before = byte_strings(elements@);
                    let after = byte_strings(elements@.push(payload));
                    assert forall|rest: Seq<Seq<u8>>| #[trigger] (after + rest) == before + (
                    seq![payload@] + rest) by {
                        assert(after + rest =~= before + (seq![payload@] + rest));
                    }
                }
                elements.push(payload);
                pos = next;
                i += 1;
            },
        }
    }
    proof {
        assert(bulk_strings(data@, pos as int, 0) == Some(Seq::<Seq<u8>>::empty()));
        assert(byte_strings(elements@) + Seq::<Seq<u8>>::empty() =~= byte_strings(elements@));
    }
    Ok(elements)
}

/// The request that asks for `PONG` in so many bytes: `*1`, `$4`, `PING`,
/// each followed by a line break.
pub const INLINE_PING: [u8; 14] = [
    0x2a, 0x31, 0x0d, 0x0a, 0x24, 0x34, 0x0d, 0x0a, 0x50, 0x49, 0x4e, 0x47, 0x0d, 0x0a,
];

/// Whether two byte strings hold the same bytes.
pub fn bytes_equal(a: &[u8], b: &[u8]) -> (r: bool)
    ensures
        r == (a@ == b@),
{
    if a.len() != b.len() {
        return false;
    }
    let mut i: usize = 0;
    while i < a.len()
        invariant
            i <= a.len(),
            a.len() == b.len(),
            forall|j: int| 0 <= j < i ==> a@[j] == b@[j],
        decreases a.len() - i,
    {
        if a[i] != b[i] {
            return false;
        }
        i += 1;
    }
    assert(a@ =~= b@);
    true
}

/// Whether `data` is the inline `PING` request, byte for byte.
pub fn is_inline_ping(data: &[u8]) -> (r: bool)
    ensures
        r == (data@ == INLINE_PING@),
{
    bytes_equal(data, &INLINE_PING)
}

/// What the server answers to one request.
#[derive(Debug, PartialEq, Eq)]
pub enum Reply {
    /// A short status text, such as `PONG` or `OK`.
    Status(Vec<u8>),
    /// A byte string that is there.
    Bulk(Vec<u8>),
    /// The byte string that is not there.
    Nil,
    /// The request was turned down; the wire form says no more than that.
    Error,
}

/// A reply as a mathematical value.
pub enum ReplyView {
    Status(Seq<u8>),
    Bulk(Seq<u8>),
    Nil,
    Error,
}

impl View for Reply {
    type V = ReplyView;

    open spec fn view(&self) -> ReplyView {
        match self {
            Reply::Status(text) => ReplyView::Status(text@),
            Reply::Bulk(bytes) => ReplyView::Bulk(bytes@),
            Reply::Nil => ReplyView::Nil,
            Reply::Error => ReplyView::Error,
        }
    }
}

/// The text of the error line, `ERR`.
pub const ERROR_TEXT: [u8; 3] = [0x45, 0x52, 0x52];

/// The length field of the byte string that is not there, `-1`.
pub const NIL_LENGTH: [u8; 2] = [0x2d, 0x31];

/// The two bytes that end every line.
pub open spec fn line_break() -> Seq<u8> {
    seq![CR, LF]
}

/// The wire form of a bulk string: `$`, the number of bytes in decimal, a
/// line break, the bytes, a line break; for the one that is not there, `$-1`
/// and a line break.
pub open spec fn bulk_wire(data: Option<Seq<u8>>) -> Seq<u8> {
    match data {
        Some(bytes) => seq![BULK_SIGIL] + decimal_digits(bytes.len()) + line_break() + bytes
            + line_break(),
        None => seq![BULK_SIGIL] + NIL_LENGTH@ + line_break(),
    }
}

/// The wire form of a reply. A status is `+`, its text and a line break; the
/// error is `-ERR` and a line break.
pub open spec fn reply_wire(reply: ReplyView) -> Seq<u8> {
    match reply {
        ReplyView::Status(text) => seq![STATUS_SIGIL] + text + line_break(),
        ReplyView::Bulk(bytes) => bulk_wire(Some(bytes)),
        ReplyView::Nil => bulk_wire(None),
        ReplyView::Error => seq![ERROR_SIGIL] + ERROR_TEXT@ + line_break(),
    }
}

/// The byte string behind an optional reference.
pub open spec fn optional_bytes(data: Option<&[u8]>) -> Option<Seq<u8>> {
    match data {
        Some(bytes) => Some(bytes@),
        None => None,
    }
}

/// Encodes a bulk string, or the one that is not there.
pub fn build_bulk_string(data: Option<&[u8]>) -> (out: Vec<u8>)
    ensures
        out@ == bulk_wire(optional_bytes(data)),
{
    let mut out: Vec<u8> = Vec::new();
    out.push(BULK_SIGIL);
    match data {
        Some(bytes) => {
            push_decimal(bytes.len(), &mut out);
            out.push(CR);
            out.push(LF);
            out.extend_from_slice(bytes);
        },
        None => {
            out.extend_from_slice(&NIL_LENGTH);
        },
    }
    out.push(CR);
    out.push(LF);
    assert(out@ =~= bulk_wire(optional_bytes(data)));
    out
}

/// Encodes a reply for the wire.
pub fn encode_reply(reply: &Reply) -> (out: Vec<u8>)
    ensures
        out@ == reply_wire(reply@),
{
    match reply {
        Reply::Status(text) => {
            let mut out: Vec<u8> = Vec::new();
            out.push(STATUS_SIGIL);
            out.extend_from_slice(text.as_slice());
            out.push(CR);
            out.push(LF);
            assert(out@ =~= reply_wire(reply@));
            out
        },
        Reply::Bulk(bytes) => build_bulk_string(Some(bytes.as_slice())),
        Reply::Nil => build_bulk_string(None),
        Reply::Error => {
            let mut out: Vec<u8> = Vec::new();
            out.push(ERROR_SIGIL);
            out.extend_from_slice(&ERROR_TEXT);
            out.push(CR);
            out.push(LF);
            assert(out@ =~= reply_wire(reply@));
            out
        },
    }
}

/// The first byte of a reply's wire form tells its kind: no status, bulk
/// string or error line can be taken for one of the others.
pub proof fn lemma_first_byte_tells_kind(reply: ReplyView)
    ensures
        reply_wire(reply).len() >= 3,
        reply_wire(reply)[0] == STATUS_SIGIL <==> reply is Status,
        reply_wire(reply)[0] == BULK_SIGIL <==> reply is Bulk || reply is Nil,
        reply_wire(reply)[0] == ERROR_SIGIL <==> reply is Error,
{
}

/// Whether `req` opens as an array does: `*` and then an ASCII digit.
pub fn is_array(req: &[u8]) -> (r: bool)
    ensures
        r == (req@.len() >= 2 && req@[0] == ARRAY_SIGIL && is_digit(req@[1])),
{
    req.len() > 1 && req[0] == ARRAY_SIGIL && is_digit_byte(req[1])
}

/// Only what opens as an array can be one.
pub proof fn lemma_array_opens_as_array(s: Seq<u8>)
    requires
        bulk_string_array(s) is Some,
    ensures
        s.len() >= 2 && s[0] == ARRAY_SIGIL && is_digit(s[1]),
{
}

} // verus!
