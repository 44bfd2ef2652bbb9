//! What holds of the store and the dispatcher whatever the requests are.

use crate::command::{
    dispatch_outcome, is_seconds_keyword, request_outcome, response, set_outcome, ttl_argument,
    Outcome, ECHO, GET, MILLIS_PER_SECOND, PING, PONG, SET,
};
use crate::store::{after_set, expiry_for, value_at, Contents, Entry, NO_EXPIRY};
use crate::wire::{
    bulk_string_array, lemma_array_opens_as_array, reply_wire, ReplyView, RequestError,
    INLINE_PING,
};
use vstd::prelude::*;

verus! {

/// One write to the store: what is written, under which key, for how long,
/// and when.
pub struct Write {
    pub key: Seq<u8>,
    pub value: Seq<u8>,
    pub ttl: Option<u64>,
    pub now: u64,
}

/// The contents after a row of writes, the first of them first.
pub open spec fn after_writes(contents: Contents, writes: Seq<Write>) -> Contents
    decreases writes.len(),
{
    if writes.len() == 0 {
        contents
    } else {
        let last = writes.last();
        after_set(
            after_writes(contents, writes.drop_last()),
            last.key,
            last.value,
            last.ttl,
            last.now,
        )
    }
}

/// Whether none of the writes is to `key`.
pub open spec fn spares(writes: Seq<Write>, key: Seq<u8>) -> bool {
    forall|i: int| 0 <= i < writes.len() ==> (#[trigger] writes[i]).key != key
}

/// Writes to other keys leave a key as it is: there or not, and with the
/// same entry.
pub proof fn lemma_other_writes_keep_key(contents: Contents, writes: Seq<Write>, key: Seq<u8>)
    requires
        spares(writes, key),
    ensures
        after_writes(contents, writes).dom().contains(key) == contents.dom().contains(key),
        after_writes(contents, writes)[key] == contents[key],
    decreases writes.len(),
{
    if writes.len() > 0 {
        assert(writes.last() == writes[writes.len() - 1]);
        assert forall|i: int| 0 <= i < writes.drop_last().len() implies (
        #[trigger] writes.drop_last()[i]).key != key by {
            assert(writes.drop_last()[i] == writes[i]);
        }
        lemma_other_writes_keep_key(contents, writes.drop_last(), key);
    }
}

/// An entry written without a time to live, or with one that is not zero,
/// expires at a time after its writing or never.
pub proof fn lemma_expiry_lies_ahead(now: u64, ttl: Option<u64>)
    requires
        ttl != Some(0u64),
    ensures
        expiry_for(now, ttl) > now || expiry_for(now, ttl) == NO_EXPIRY,
{
}

/// A key that was never written reads as absent, at every time and whatever
/// was written under other keys.
pub proof fn lemma_unwritten_key_is_absent(writes: Seq<Write>, key: Seq<u8>, now: u64)
    requires
        spares(writes, key),
    ensures
        value_at(after_writes(Map::empty(), writes), key, now) is None,
{
    lemma_other_writes_keep_key(Map::empty(), writes, key);
}

/// A value written without a time to live is read back at every later or
/// earlier time short of the last one, whatever is written under other keys
/// in between: it does not expire by itself.
pub proof fn lemma_value_without_ttl_stays(
    contents: Contents,
    key: Seq<u8>,
    value: Seq<u8>,
    now: u64,
    others: Seq<Write>,
    later: u64,
)
    requires
        spares(others, key),
        later < NO_EXPIRY,
    ensures
        value_at(after_writes(after_set(contents, key, value, None, now), others), key, later)
            == Some(value),
{
    lemma_other_writes_keep_key(after_set(contents, key, value, None, now), others, key);
}

/// A value written at `now` to live for `ttl` milliseconds is read back as
/// long as less than `ttl` milliseconds have gone by, and is absent from then
/// on, whatever is written under other keys in between. The one read left
/// out is that at the last time there is, of a value that would outlive it.
pub proof fn lemma_value_with_ttl_expires(
    contents: Contents,
    key: Seq<u8>,
    value: Seq<u8>,
    ttl: u64,
    now: u64,
    others: Seq<Write>,
    later: u64,
)
    requires
        spares(others, key),
        now <= later,
        !(later == NO_EXPIRY && now + ttl > NO_EXPIRY),
    ensures
        value_at(
            after_writes(after_set(contents, key, value, Some(ttl), now), others),
            key,
            later,
        ) == if later - now < ttl {
            Some(value)
        } else {
            None
        },
{
    lemma_other_writes_keep_key(after_set(contents, key, value, Some(ttl), now), others, key);
}

/// A second write to a key leaves nothing of the first: the store is as if
/// the first had never been made, and a read gives the second value while
/// that one lives.
pub proof fn lemma_second_write_replaces_first(
    contents: Contents,
    key: Seq<u8>,
    first: Write,
    second: Write,
    later: u64,
)
    requires
        first.key == key,
        second.key == key,
    ensures
        after_writes(contents, seq![first, second]) == after_writes(contents, seq![second]),
        expiry_for(second.now, second.ttl) > later ==> value_at(
            after_writes(contents, seq![first, second]),
            key,
            later,
        ) == Some(second.value),
{
    let both = seq![first, second];
    let one = seq![second];
    assert(both.drop_last() =~= seq![first]);
    assert(seq![first].drop_last() =~= Seq::<Write>::empty());
    assert(one.drop_last() =~= Seq::<Write>::empty());
    reveal_with_fuel(after_writes, 3);
    assert(after_writes(contents, both) =~= after_writes(contents, one));
}

/// Two writes to one key, in whichever order they are made, leave the entry
/// of one of them whole: the value of the one with the expiry time of the
/// same, never the value of one with the expiry time of the other.
pub proof fn lemma_two_writes_leave_one_whole(contents: Contents, key: Seq<u8>, a: Write, b: Write)
    requires
        a.key == key,
        b.key == key,
    ensures
        after_writes(contents, seq![a, b])[key] == (Entry {
            value: b.value,
            expires_at: expiry_for(b.now, b.ttl),
        }),
        after_writes(contents, seq![b, a])[key] == (Entry {
            value: a.value,
            expires_at: expiry_for(a.now, a.ttl),
        }),
{
    assert(seq![a, b].drop_last() =~= seq![a]);
    assert(seq![b, a].drop_last() =~= seq![b]);
    reveal_with_fuel(after_writes, 3);
}

/// `SET` with a time to live writes an entry that expires so many seconds
/// after the call where the unit is `EX`, and so many milliseconds after it
/// under every other unit; an expiry time at the end of time or beyond is
/// "never".
pub proof fn lemma_set_expiry(contents: Contents, args: Seq<Seq<u8>>, amount: u64, now: u64)
    requires
        args.len() >= 4,
        ttl_argument(args[3]) == Some(amount),
    ensures
        set_outcome(contents, args, now).verdict is Ok,
        set_outcome(contents, args, now).contents.dom().contains(args[0]),
        set_outcome(contents, args, now).contents[args[0]].value == args[1],
        ({
            let millis = if is_seconds_keyword(args[2]) {
                amount * MILLIS_PER_SECOND
            } else {
                amount as int
            };
            set_outcome(contents, args, now).contents[args[0]].expires_at == if now + millis
                < NO_EXPIRY {
                now + millis
            } else {
                NO_EXPIRY as int
            }
        }),
{
}

/// `SET` with a time to live that is no number is refused and writes
/// nothing.
pub proof fn lemma_bad_ttl_writes_nothing(contents: Contents, args: Seq<Seq<u8>>, now: u64)
    requires
        args.len() >= 4,
        ttl_argument(args[3]) is None,
    ensures
        set_outcome(contents, args, now) == (Outcome {
            verdict: Err(RequestError::Value),
            contents,
        }),
{
}

/// A request that is refused, for whatever reason, is answered by the error
/// line and leaves the store as it was.
pub proof fn lemma_refusal_changes_nothing(contents: Contents, data: Seq<u8>, now: u64)
    requires
        request_outcome(contents, data, now).verdict is Err,
    ensures
        response(contents, data, now) == reply_wire(ReplyView::Error),
        request_outcome(contents, data, now).contents == contents,
{
}

/// Bytes that are neither the inline `PING` nor a well-formed array of two
/// elements or more are refused.
pub proof fn lemma_malformed_request_is_refused(contents: Contents, data: Seq<u8>, now: u64)
    requires
        data != INLINE_PING@,
        match bulk_string_array(data) {
            Some(elements) => elements.len() < 2,
            None => true,
        },
    ensures
        request_outcome(contents, data, now).verdict is Err,
        response(contents, data, now) == reply_wire(ReplyView::Error),
        request_outcome(contents, data, now).contents == contents,
{
}

/// `SET` with a time to live that is no number, sent as an array, is
/// answered by the error line and writes nothing.
pub proof fn lemma_bad_ttl_request_is_refused(
    contents: Contents,
    data: Seq<u8>,
    elements: Seq<Seq<u8>>,
    now: u64,
)
    requires
        bulk_string_array(data) == Some(elements),
        elements.len() >= 5,
        elements[0] == SET@,
        ttl_argument(elements[4]) is None,
    ensures
        response(contents, data, now) == reply_wire(ReplyView::Error),
        request_outcome(contents, data, now).contents == contents,
{
    lemma_array_opens_as_array(data);
    assert(SET@.len() == 3);
    assert(PING@.len() == 4);
    assert(ECHO@.len() == 4);
    assert(SET@[0] != GET@[0]);
    let args = elements.subrange(1, elements.len() as int);
    assert(args[3] == elements[4]);
}

/// `PING` is answered by `PONG` both ways: as the inline request, and as a
/// decoded request that names the command, with or without arguments.
pub proof fn lemma_ping_both_ways(contents: Contents, elements: Seq<Seq<u8>>, now: u64)
    requires
        elements.len() >= 1,
        elements[0] == PING@,
    ensures
        request_outcome(contents, INLINE_PING@, now) == (Outcome {
            verdict: Ok(ReplyView::Status(PONG@)),
            contents,
        }),
        dispatch_outcome(contents, elements, now) == request_outcome(
            contents,
            INLINE_PING@,
            now,
        ),
{
}

} // verus!
