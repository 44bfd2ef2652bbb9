//! The store: keys to values that may expire, read lazily.

use crate::wire::bytes_equal;
use vstd::prelude::*;

verus! {

/// The expiry time that stands for "never": the largest time there is.
pub const NO_EXPIRY: u64 = 0xffff_ffff_ffff_ffff;

/// What the store holds for one key: the value, and the time in milliseconds
/// since the epoch from which on it counts as gone.
pub struct Entry {
    pub value: Seq<u8>,
    pub expires_at: u64,
}

/// The store as a mathematical value: a map from keys to entries.
pub type Contents = Map<Seq<u8>, Entry>;

/// The expiry time of an entry written at `now` to live for `ttl`
/// milliseconds. Without a time to live it never expires; the same holds of
/// one that reaches to the end of time or beyond.
pub open spec fn expiry_for(now: u64, ttl: Option<u64>) -> u64 {
    match ttl {
        Some(millis) => if now + millis >= NO_EXPIRY {
            NO_EXPIRY
        } else {
            (now + millis) as u64
        },
        None => NO_EXPIRY,
    }
}

/// What a read of `key` at time `now` gives: the value of an entry that is
/// there and has not expired. An entry expires the moment the time reaches
/// its expiry time; it stays in the map, and only the reads pass it over.
pub open spec fn value_at(contents: Contents, key: Seq<u8>, now: u64) -> Option<Seq<u8>> {
    if contents.dom().contains(key) && contents[key].expires_at > now {
        Some(contents[key].value)
    } else {
        None
    }
}

/// The contents after a write of `value` under `key` at time `now`: the
/// entry of that key is replaced as a whole, all others stay.
pub open spec fn after_set(
    contents: Contents,
    key: Seq<u8>,
    value: Seq<u8>,
    ttl: Option<u64>,
    now: u64,
) -> Contents {
    contents.insert(key, Entry { value, expires_at: expiry_for(now, ttl) })
}

/// One key with what is stored under it.
struct Slot {
    key: Vec<u8>,
    value: Vec<u8>,
    expires_at: u64,
}

/// The entry that a slot stores.
spec fn entry_of(slot: Slot) -> Entry {
    Entry { value: slot.value@, expires_at: slot.expires_at }
}

/// Whether slot `i` is there and holds `key`.
spec fn holds(slots: Seq<Slot>, i: int, key: Seq<u8>) -> bool {
    0 <= i < slots.len() && slots[i].key@ == key
}

/// Whether no two slots hold the same key.
spec fn distinct(slots: Seq<Slot>) -> bool {
    forall|i: int, j: int|
        0 <= i < slots.len() && 0 <= j < slots.len() && i != j ==> #[trigger] slots[i].key@
            != #[trigger] slots[j].key@
}

/// The map that the slots stand for: every key that a slot holds, with the
/// entry of that slot.
spec fn contents_of(slots: Seq<Slot>) -> Contents {
    Map::new(
        |key: Seq<u8>| exists|i: int| holds(slots, i, key),
        |key: Seq<u8>| entry_of(slots[choose|i: int| holds(slots, i, key)]),
    )
}

/// Where no key occurs twice, the map gives for the key of each slot the
/// entry of that slot.
proof fn lemma_contents_at(slots: Seq<Slot>, i: int)
    requires
        distinct(slots),
        0 <= i < slots.len(),
    ensures
        contents_of(slots).dom().contains(slots[i].key@),
        contents_of(slots)[slots[i].key@] == entry_of(slots[i]),
{
    assert(holds(slots, i, slots[i].key@));
}

/// A store of byte strings under byte-string keys. It keeps its keys in a
/// row, each of them once, and finds a key by going along the row.
pub struct Store {
    slots: Vec<Slot>,
}

impl View for Store {
    type V = Contents;

    closed spec fn view(&self) -> Contents {
        contents_of(self.slots@)
    }
}

impl Store {
    #[verifier::type_invariant]
    spec fn well_formed(&self) -> bool {
        distinct(self.slots@)
    }

    /// A store that holds nothing.
    pub fn new() -> (store: Store)
        ensures
            store@ == Map::<Seq<u8>, Entry>::empty(),
    {
        let store = Store { slots: Vec::new() };
        assert(store@ =~= Map::<Seq<u8>, Entry>::empty());
        store
    }

    /// The index of the slot that holds `key`; the number of slots where
    /// none does.
    fn position(&self, key: &[u8]) -> (i: usize)
        ensures
            i <= self.slots.len(),
            i < self.slots.len() ==> self.slots[i as int].key@ == key@,
            i == self.slots.len() ==> !self@.dom().contains(key@),
    {
        let mut i: usize = 0;
        while i < self.slots.len()
            invariant
                i <= self.slots.len(),
                forall|j: int| 0 <= j < i ==> !holds(self.slots@, j, key@),
            decreases self.slots.len() - i,
        {
            if bytes_equal(self.slots[i].key.as_slice(), key) {
                return i;
            }
            i += 1;
        }
        i
    }

    /// Reads `key` at time `now`: a copy of its value, unless the key was
    /// never written or its entry has expired.
    pub fn get(&self, key: &[u8], now: u64) -> (r: Option<Vec<u8>>)
        ensures
            match value_at(self@, key@, now) {
                Some(value) => r matches Some(bytes) && bytes@ == value,
                None => r is None,
            },
    {
        let i = self.position(key);
        proof {
            use_type_invariant(self);
            if i < self.slots.len() {
                lemma_contents_at(self.slots@, i as int);
            }
        }
        if i < self.slots.len() && self.slots[i].expires_at > now {
            Some(vstd::slice::slice_to_vec(self.slots[i].value.as_slice()))
        } else {
            None
        }
    }

    /// Writes `value` under `key` at time `now`, to live for `ttl`
    /// milliseconds, or for ever where `ttl` is `None`. What the key held
    /// before is replaced as a whole.
    pub fn set(&mut self, key: &[u8], value: &[u8], ttl: Option<u64>, now: u64)
        ensures
            final(self)@ == after_set(old(self)@, key@, value@, ttl, now),
    {
        let expires_at = match ttl {
            Some(millis) => now.saturating_add(millis),
            None => NO_EXPIRY,
        };
        let i = self.position(key);
        let slot = Slot {
            key: vstd::slice::slice_to_vec(key),
            value: vstd::slice::slice_to_vec(value),
            expires_at,
        };
        proof {
            use_type_invariant(&*self);
        }
        let ghost before = self.slots@;
        let mut slots: Vec<Slot> = Vec::new();
        core::mem::swap(&mut self.slots, &mut slots);
        if i < slots.len() {
            slots.set(i, slot);
        } else {
            slots.push(slot);
        }
        proof {
            let after = slots@;
            let entry = Entry { value: value@, expires_at: expiry_for(now, ttl) };
            assert(after[i as int].key@ == key@);
            assert(entry_of(after[i as int]) == entry);
            assert forall|a: int, b: int|
                0 <= a < after.len() && 0 <= b < after.len() && a != b implies #[trigger] after[a].key@
                != #[trigger] after[b].key@ by {
                if a < before.len() && b < before.len() {
                    assert(before[a].key@ != before[b].key@);
                } else if a < before.len() {
                    assert(!holds(before, a, key@)) by {
                        if holds(before, a, key@) {
                            lemma_contents_at(before, a);
                        }
                    }
                } else {
                    assert(!holds(before, b, key@)) by {
                        if holds(before, b, key@) {
                            lemma_contents_at(before, b);
                        }
                    }
                }
            }
            assert(distinct(after));
            let wanted = contents_of(before).insert(key@, entry);
            assert forall|k: Seq<u8>| contents_of(after).dom().contains(k) <==> wanted.dom().contains(
                k,
            ) by {
                if contents_of(after).dom().contains(k) {
                    let j = choose|j: int| holds(after, j, k);
                    if j != i {
                        assert(holds(before, j, k));
                    }
                }
                if wanted.dom().contains(k) {
                    if k == key@ {
                        assert(holds(after, i as int, k));
                    } else {
                        let j = choose|j: int| holds(before, j, k);
                        assert(holds(after, j, k));
                    }
                }
            }
            assert forall|k: Seq<u8>| contents_of(after).dom().contains(k) implies contents_of(
                after,
            )[k] == wanted[k] by {
                let j = choose|j: int| holds(after, j, k);
                lemma_contents_at(after, j);
                if j != i {
                    assert(holds(before, j, k));
                    lemma_contents_at(before, j);
                }
            }
            assert(contents_of(after) =~= wanted);
        }
        core::mem::swap(&mut self.slots, &mut slots);
    }
}

} // verus!
