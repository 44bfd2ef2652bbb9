//! One connection: what to do after each read.

use crate::clock::now_millis;
use crate::command::{get_resp_at, request_outcome, response};
use crate::store::{Contents, Store};
use crate::wire::optional_bytes;
use vstd::prelude::*;

verus! {

/// What a session does next.
#[derive(Debug, PartialEq, Eq)]
pub enum Action {
    /// Write these bytes to the connection, then read again.
    Answer(Vec<u8>),
    /// Stop serving the connection.
    Close,
}

/// An action as a mathematical value.
pub enum ActionView {
    Answer(Seq<u8>),
    Close,
}

impl View for Action {
    type V = ActionView;

    open spec fn view(&self) -> ActionView {
        match self {
            Action::Answer(bytes) => ActionView::Answer(bytes@),
            Action::Close => ActionView::Close,
        }
    }
}

/// Whether a read ends the session: one that failed, here `None`, and one
/// that brought no bytes, which is the end of the stream.
pub open spec fn ends_session(read: Option<Seq<u8>>) -> bool {
    match read {
        Some(data) => data.len() == 0,
        None => true,
    }
}

/// What follows a read at time `now`. A read that ends the session closes it
/// and leaves the store alone; the bytes of every other read are answered as
/// one request, and the session goes on whatever the answer is.
pub open spec fn action_after(contents: Contents, read: Option<Seq<u8>>, now: u64) -> ActionView {
    match read {
        Some(data) => if data.len() == 0 {
            ActionView::Close
        } else {
            ActionView::Answer(response(contents, data, now))
        },
        None => ActionView::Close,
    }
}

/// The contents of the store after a read at time `now`.
pub open spec fn contents_after(contents: Contents, read: Option<Seq<u8>>, now: u64) -> Contents {
    match read {
        Some(data) => if data.len() == 0 {
            contents
        } else {
            request_outcome(contents, data, now).contents
        },
        None => contents,
    }
}

/// Decides what follows a read, as of time `now`. `read` holds the bytes
/// that came, or `None` where the read failed.
pub fn after_read_at(read: Option<&[u8]>, kv: &mut Store, now: u64) -> (action: Action)
    ensures
        action@ == action_after(old(kv)@, optional_bytes(read), now),
        final(kv)@ == contents_after(old(kv)@, optional_bytes(read), now),
{
    match read {
        Some(data) => {
            if data.len() == 0 {
                Action::Close
            } else {
                Action::Answer(get_resp_at(data, kv, now))
            }
        },
        None => Action::Close,
    }
}

/// Decides what follows a read, as of the time that the clock shows.
/// Whatever it shows, action and store are the ones that `action_after` and
/// `contents_after` give for that time; a read that ends the session closes
/// it whatever the time.
pub fn after_read(read: Option<&[u8]>, kv: &mut Store) -> (action: Action)
    ensures
        exists|now: u64|
            #![trigger action_after(old(kv)@, optional_bytes(read), now)]
            action@ == action_after(old(kv)@, optional_bytes(read), now) && final(kv)@
                == contents_after(old(kv)@, optional_bytes(read), now),
{
    let now = now_millis();
    after_read_at(read, kv, now)
}

/// A session closes on a read that ends it and on no other: no request,
/// however malformed, closes the connection or changes what a closed one
/// left in the store.
pub proof fn lemma_only_the_read_closes(contents: Contents, read: Option<Seq<u8>>, now: u64)
    ensures
        action_after(contents, read, now) is Close <==> ends_session(read),
        ends_session(read) ==> contents_after(contents, read, now) == contents,
{
}

} // verus!
