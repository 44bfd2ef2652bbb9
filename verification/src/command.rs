//! The command dispatcher: from a decoded request to a reply, through the
//! store where the command asks for it.

use crate::clock::now_millis;
use crate::store::{after_set, value_at, Contents, Store};
use crate::wire::{
    bulk_string_array, byte_strings, bytes_equal, decimal_value, digits_end, encode_reply,
    is_array, is_digit, is_inline_ping, parse_bulk_string_array, reply_wire, scan_decimal, Reply,
    ReplyView, RequestError, ARRAY_SIGIL, INLINE_PING,
};
use vstd::prelude::*;

verus! {

/// The command name `PING`.
pub const PING: [u8; 4] = [0x50, 0x49, 0x4e, 0x47];

/// The command name `ECHO`.
pub const ECHO: [u8; 4] = [0x45, 0x43, 0x48, 0x4f];

/// The command name `GET`.
pub const GET: [u8; 3] = [0x47, 0x45, 0x54];

/// The command name `SET`.
pub const SET: [u8; 3] = [0x53, 0x45, 0x54];

/// The status text `PONG`.
pub const PONG: [u8; 4] = [0x50, 0x4f, 0x4e, 0x47];

/// The status text `OK`.
pub const OK: [u8; 2] = [0x4f, 0x4b];

/// The space that `ECHO` puts between its arguments.
pub const SPACE: u8 = 0x20;

/// The sign `+` that may stand before a time to live.
pub const PLUS: u8 = 0x2b;

/// The milliseconds in a second.
pub const MILLIS_PER_SECOND: u64 = 1000;

/// A reply or a refusal as a mathematical value.
pub type Verdict = Result<ReplyView, RequestError>;

/// What a command leaves behind: its reply or refusal, and the contents of
/// the store after it.
pub struct Outcome {
    pub verdict: Verdict,
    pub contents: Contents,
}

/// The verdict that an executable reply or refusal stands for.
pub open spec fn verdict_of(r: Result<Reply, RequestError>) -> Verdict {
    match r {
        Ok(reply) => Ok(reply@),
        Err(error) => Err(error),
    }
}

/// The reply that goes out. A refusal, whatever its reason, becomes the one
/// error reply.
pub open spec fn reply_for(verdict: Verdict) -> ReplyView {
    match verdict {
        Ok(reply) => reply,
        Err(_) => ReplyView::Error,
    }
}

/// The arguments joined into one byte string, a single space between each
/// two; the empty byte string for no arguments.
pub open spec fn joined(args: Seq<Seq<u8>>) -> Seq<u8>
    decreases args.len(),
{
    if args.len() == 0 {
        Seq::empty()
    } else if args.len() == 1 {
        args[0]
    } else {
        joined(args.drop_last()) + seq![SPACE] + args.last()
    }
}

/// The number that a time-to-live argument writes: decimal digits, one at
/// least, with or without a `+` before them, and no more than 64 bits hold.
/// `None` for every other byte string.
pub open spec fn ttl_argument(arg: Seq<u8>) -> Option<u64> {
    let first: int = if arg.len() > 0 && arg[0] == PLUS {
        1
    } else {
        0
    };
    let digits = arg.subrange(first, arg.len() as int);
    if first < arg.len() && digits_end(arg, first) == arg.len() && decimal_value(digits)
        <= u64::MAX {
        Some(decimal_value(digits) as u64)
    } else {
        None
    }
}

/// Whether `unit` is the keyword `EX`, in upper or lower case or mixed.
pub open spec fn is_seconds_keyword(unit: Seq<u8>) -> bool {
    unit.len() == 2 && (unit[0] == 0x45 || unit[0] == 0x65) && (unit[1] == 0x58 || unit[1]
        == 0x78)
}

/// The time to live in milliseconds: `amount` seconds under the keyword
/// `EX`, `amount` milliseconds under any other unit. Where the seconds are
/// more milliseconds than 64 bits hold, the largest number that they hold.
pub open spec fn ttl_millis(unit: Seq<u8>, amount: u64) -> u64 {
    if is_seconds_keyword(unit) {
        if amount * MILLIS_PER_SECOND > u64::MAX {
            u64::MAX
        } else {
            (amount * MILLIS_PER_SECOND) as u64
        }
    } else {
        amount
    }
}

/// What `ECHO` answers: its arguments joined, as a bulk string.
pub open spec fn echo_reply(args: Seq<Seq<u8>>) -> ReplyView {
    ReplyView::Bulk(joined(args))
}

/// What `GET` answers at time `now`. The first argument is the key; without
/// one the command is refused. A key that is not there, or has expired, gives
/// the nil reply and no refusal.
pub open spec fn get_verdict(contents: Contents, args: Seq<Seq<u8>>, now: u64) -> Verdict {
    if args.len() < 1 {
        Err(RequestError::Command)
    } else {
        match value_at(contents, args[0], now) {
            Some(value) => Ok(ReplyView::Bulk(value)),
            None => Ok(ReplyView::Nil),
        }
    }
}

/// What `SET` does at time `now`. The first two arguments are key and value;
/// with fewer the command is refused. Where a third and a fourth are there,
/// the fourth is the time to live and the third its unit; a fourth that is no
/// number is refused. A refused command leaves the store as it was.
pub open spec fn set_outcome(contents: Contents, args: Seq<Seq<u8>>, now: u64) -> Outcome {
    if args.len() < 2 {
        Outcome { verdict: Err(RequestError::Command), contents }
    } else if args.len() < 4 {
        Outcome {
            verdict: Ok(ReplyView::Status(OK@)),
            contents: after_set(contents, args[0], args[1], None, now),
        }
    } else {
        match ttl_argument(args[3]) {
            Some(amount) => Outcome {
                verdict: Ok(ReplyView::Status(OK@)),
                contents: after_set(
                    contents,
                    args[0],
                    args[1],
                    Some(ttl_millis(args[2], amount)),
                    now,
                ),
            },
            None => Outcome { verdict: Err(RequestError::Value), contents },
        }
    }
}

/// What a decoded request does at time `now`. The first element names the
/// command, letter for letter in upper case; the others are its arguments.
pub open spec fn dispatch_outcome(contents: Contents, elements: Seq<Seq<u8>>, now: u64) -> Outcome {
    if elements.len() == 0 {
        Outcome { verdict: Err(RequestError::Command), contents }
    } else {
        let name = elements[0];
        let args = elements.subrange(1, elements.len() as int);
        if name == PING@ {
            Outcome { verdict: Ok(ReplyView::Status(PONG@)), contents }
        } else if name == ECHO@ {
            Outcome { verdict: Ok(echo_reply(args)), contents }
        } else if name == GET@ {
            Outcome { verdict: get_verdict(contents, args, now), contents }
        } else if name == SET@ {
            set_outcome(contents, args, now)
        } else {
            Outcome { verdict: Err(RequestError::Command), contents }
        }
    }
}

/// What a request in array form does at time `now`. Bytes that are no
/// well-formed array are refused, and so is an array of fewer than two
/// elements; every other array is dispatched.
pub open spec fn array_outcome(contents: Contents, req: Seq<u8>, now: u64) -> Outcome {
    match bulk_string_array(req) {
        Some(elements) => if elements.len() < 2 {
            Outcome { verdict: Err(RequestError::Command), contents }
        } else {
            dispatch_outcome(contents, elements, now)
        },
        None => Outcome { verdict: Err(RequestError::Protocol), contents },
    }
}

/// Whether `data` opens as an array does: `*` and then an ASCII digit.
pub open spec fn opens_as_array(data: Seq<u8>) -> bool {
    data.len() >= 2 && data[0] == ARRAY_SIGIL && is_digit(data[1])
}

/// What the bytes of one read do at time `now`: the inline `PING` is
/// answered at once, what opens as an array is decoded and dispatched, and
/// everything else is refused.
pub open spec fn request_outcome(contents: Contents, data: Seq<u8>, now: u64) -> Outcome {
    if data == INLINE_PING@ {
        Outcome { verdict: Ok(ReplyView::Status(PONG@)), contents }
    } else if opens_as_array(data) {
        array_outcome(contents, data, now)
    } else {
        Outcome { verdict: Err(RequestError::Protocol), contents }
    }
}

/// The bytes that answer the bytes of one read at time `now`.
pub open spec fn response(contents: Contents, data: Seq<u8>, now: u64) -> Seq<u8> {
    reply_wire(reply_for(request_outcome(contents, data, now).verdict))
}

/// Answers `ECHO`: the arguments joined by single spaces, as a bulk string.
/// The store is not touched.
pub fn handle_echo(data: &Vec<Vec<u8>>) -> (reply: Reply)
    ensures
        reply@ == echo_reply(byte_strings(data@)),
{
    let ghost args = byte_strings(data@);
    let mut out: Vec<u8> = Vec::new();
    let mut i: usize = 0;
    while i < data.len()
        invariant
            i <= data.len(),
            args == byte_strings(data@),
            out@ == joined(args.take(i as int)),
        decreases data.len() - i,
    {
        if i > 0 {
            out.push(SPACE);
        }
        out.extend_from_slice(data[i].as_slice());
        proof {
            assert(args.take(i + 1).drop_last() =~= args.take(i as int));
            assert(args.take(i + 1).last() == data@[i as int]@);
            assert(out@ =~= joined(args.take(i + 1)));
        }
        i += 1;
    }
    assert(args.take(data.len() as int) =~= args);
    Reply::Bulk(out)
}

/// Reads a time-to-live argument.
pub fn parse_ttl(arg: &[u8]) -> (r: Option<u64>)
    ensures
        r == ttl_argument(arg@),
{
    let first: usize = if arg.len() > 0 && arg[0] == PLUS {
        1
    } else {
        0
    };
    let (end, number) = scan_decimal(arg, first, u64::MAX);
    if first < arg.len() && end == arg.len() {
        number
    } else {
        None
    }
}

/// Whether `unit` is the keyword `EX`, in upper or lower case or mixed.
pub fn is_seconds(unit: &[u8]) -> (r: bool)
    ensures
        r == is_seconds_keyword(unit@),
{
    unit.len() == 2 && (unit[0] == 0x45 || unit[0] == 0x65) && (unit[1] == 0x58 || unit[1]
        == 0x78)
}

/// Answers `GET` as of time `now`.
pub fn handle_get_at(kv: &Store, data: &Vec<Vec<u8>>, now: u64) -> (r: Result<Reply, RequestError>)
    ensures
        verdict_of(r) == get_verdict(kv@, byte_strings(data@), now),
{
    if data.len() < 1 {
        return Err(RequestError::Command);
    }
    match kv.get(data[0].as_slice(), now) {
        Some(value) => Ok(Reply::Bulk(value)),
        None => Ok(Reply::Nil),
    }
}

/// Answers `GET` as of the time that the clock shows. Whatever it shows, the
/// answer is the one that `get_verdict` gives for that time.
pub fn handle_get(kv: &Store, data: &Vec<Vec<u8>>) -> (r: Result<Reply, RequestError>)
    ensures
        exists|now: u64| verdict_of(r) == #[trigger] get_verdict(kv@, byte_strings(data@), now),
{
    let now = now_millis();
    handle_get_at(kv, data, now)
}

/// Carries out `SET` as of time `now`.
pub fn handle_set_at(kv: &mut Store, data: &Vec<Vec<u8>>, now: u64) -> (r: Result<
    Reply,
    RequestError,
>)
    ensures
        verdict_of(r) == set_outcome(old(kv)@, byte_strings(data@), now).verdict,
        final(kv)@ == set_outcome(old(kv)@, byte_strings(data@), now).contents,
{
    if data.len() < 2 {
        return Err(RequestError::Command);
    }
    let ttl = if data.len() < 4 {
        None
    } else {
        match parse_ttl(data[3].as_slice()) {
            Some(amount) => {
                if is_seconds(data[2].as_slice()) {
                    match amount.checked_mul(MILLIS_PER_SECOND) {
                        Some(millis) => Some(millis),
                        None => Some(u64::MAX),
                    }
                } else {
                    Some(amount)
                }
            },
            None => {
                return Err(RequestError::Value);
            },
        }
    };
    kv.set(data[0].as_slice(), data[1].as_slice(), ttl, now);
    Ok(Reply::Status(vstd::slice::slice_to_vec(&OK)))
}

/// Carries out `SET` as of the time that the clock shows. Whatever it shows,
/// reply and store are the ones that `set_outcome` gives for that time.
pub fn handle_set(kv: &mut Store, data: &Vec<Vec<u8>>) -> (r: Result<Reply, RequestError>)
    ensures
        exists|now: u64|
            #![trigger set_outcome(old(kv)@, byte_strings(data@), now)]
            verdict_of(r) == set_outcome(old(kv)@, byte_strings(data@), now).verdict && final(kv)@
                == set_outcome(old(kv)@, byte_strings(data@), now).contents,
{
    let now = now_millis();
    handle_set_at(kv, data, now)
}

/// Carries out a decoded request as of time `now`: the command that the
/// first element names, on the elements behind it.
pub fn dispatch(elements: Vec<Vec<u8>>, kv: &mut Store, now: u64) -> (r: Result<
    Reply,
    RequestError,
>)
    ensures
        verdict_of(r) == dispatch_outcome(old(kv)@, byte_strings(elements@), now).verdict,
        final(kv)@ == dispatch_outcome(old(kv)@, byte_strings(elements@), now).contents,
{
    let mut elements = elements;
    if elements.len() == 0 {
        return Err(RequestError::Command);
    }
    let ghost all = byte_strings(elements@);
    let name = elements.remove(0);
    assert(byte_strings(elements@) =~= all.subrange(1, all.len() as int));
    assert(name@ == all[0]);
    if bytes_equal(name.as_slice(), &PING) {
        Ok(Reply::Status(vstd::slice::slice_to_vec(&PONG)))
    } else if bytes_equal(name.as_slice(), &ECHO) {
        Ok(handle_echo(&elements))
    } else if bytes_equal(name.as_slice(), &GET) {
        handle_get_at(kv, &elements, now)
    } else if bytes_equal(name.as_slice(), &SET) {
        handle_set_at(kv, &elements, now)
    } else {
        Err(RequestError::Command)
    }
}

/// Decodes a request in array form and carries it out as of time `now`.
pub fn handle_array_at(req: &[u8], kv: &mut Store, now: u64) -> (r: Result<Reply, RequestError>)
    ensures
        verdict_of(r) == array_outcome(old(kv)@, req@, now).verdict,
        final(kv)@ == array_outcome(old(kv)@, req@, now).contents,
{
    match parse_bulk_string_array(req) {
        Ok(elements) => {
            if elements.len() < 2 {
                Err(RequestError::Command)
            } else {
                dispatch(elements, kv, now)
            }
        },
        Err(_) => Err(RequestError::Protocol),
    }
}

/// Decodes a request in array form and carries it out as of the time that
/// the clock shows. Whatever it shows, reply and store are the ones that
/// `array_outcome` gives for that time.
pub fn handle_array(req: &[u8], kv: &mut Store) -> (r: Result<Reply, RequestError>)
    ensures
        exists|now: u64|
            #![trigger array_outcome(old(kv)@, req@, now)]
            verdict_of(r) == array_outcome(old(kv)@, req@, now).verdict && final(kv)@
                == array_outcome(old(kv)@, req@, now).contents,
{
    let now = now_millis();
    handle_array_at(req, kv, now)
}

/// Answers the bytes of one read as of time `now`, in wire form.
pub fn get_resp_at(data: &[u8], kv: &mut Store, now: u64) -> (out: Vec<u8>)
    ensures
        out@ == response(old(kv)@, data@, now),
        final(kv)@ == request_outcome(old(kv)@, data@, now).contents,
{
    let verdict = if is_inline_ping(data) {
        Ok(Reply::Status(vstd::slice::slice_to_vec(&PONG)))
    } else if is_array(data) {
        handle_array_at(data, kv, now)
    } else {
        Err(RequestError::Protocol)
    };
    match verdict {
        Ok(reply) => encode_reply(&reply),
        Err(_) => encode_reply(&Reply::Error),
    }
}

/// Answers the bytes of one read as of the time that the clock shows, in
/// wire form. Whatever it shows, answer and store are the ones that
/// `response` and `request_outcome` give for that time.
pub fn get_resp(data: &[u8], kv: &mut Store) -> (out: Vec<u8>)
    ensures
        exists|now: u64|
            #![trigger request_outcome(old(kv)@, data@, now)]
            out@ == response(old(kv)@, data@, now) && final(kv)@ == request_outcome(
                old(kv)@,
                data@,
                now,
            ).contents,
{
    let now = now_millis();
    get_resp_at(data, kv, now)
}

} // verus!
