use tiny_kv::store::{Store, NO_EXPIRY};

#[test]
fn unset_key_is_absent() {
    let store = Store::new();
    assert_eq!(store.get(b"k", 0), None);
    assert_eq!(store.get(b"", 0), None);
    assert_eq!(store.get(b"k", u64::MAX), None);
}

#[test]
fn key_stays_absent_when_others_are_set() {
    let mut store = Store::new();
    store.set(b"a", b"1", None, 10);
    store.set(b"b", b"2", Some(100), 10);
    assert_eq!(store.get(b"c", 10), None);
    assert_eq!(store.get(b"ab", 10), None);
    assert_eq!(store.get(b"", 10), None);
}

#[test]
fn value_without_ttl_does_not_expire() {
    let mut store = Store::new();
    store.set(b"k", b"v", None, 1_000);
    assert_eq!(store.get(b"k", 1_000), Some(b"v".to_vec()));
    assert_eq!(store.get(b"k", 0), Some(b"v".to_vec()));
    assert_eq!(store.get(b"k", 1_000_000_000_000), Some(b"v".to_vec()));
    assert_eq!(store.get(b"k", u64::MAX - 1), Some(b"v".to_vec()));
}

#[test]
fn value_without_ttl_outlives_other_writes() {
    let mut store = Store::new();
    store.set(b"k", b"v", None, 5);
    store.set(b"other", b"x", Some(1), 6);
    store.set(b"more", b"y", None, 7);
    assert_eq!(store.get(b"k", 1_000), Some(b"v".to_vec()));
    assert_eq!(store.get(b"more", 1_000), Some(b"y".to_vec()));
    assert_eq!(store.get(b"other", 1_000), None);
}

#[test]
fn value_with_ttl_expires_when_the_ttl_has_gone_by() {
    let mut store = Store::new();
    store.set(b"k", b"v", Some(10), 100);
    assert_eq!(store.get(b"k", 100), Some(b"v".to_vec()));
    assert_eq!(store.get(b"k", 109), Some(b"v".to_vec()));
    assert_eq!(store.get(b"k", 110), None);
    assert_eq!(store.get(b"k", 111), None);
    assert_eq!(store.get(b"k", u64::MAX), None);
}

#[test]
fn ttl_of_one_millisecond_lasts_one_millisecond() {
    let mut store = Store::new();
    store.set(b"k", b"v", Some(1), 7);
    assert_eq!(store.get(b"k", 7), Some(b"v".to_vec()));
    assert_eq!(store.get(b"k", 8), None);
}

#[test]
fn ttl_of_zero_is_gone_at_once() {
    let mut store = Store::new();
    store.set(b"k", b"v", Some(0), 100);
    assert_eq!(store.get(b"k", 100), None);
    assert_eq!(store.get(b"k", 99), Some(b"v".to_vec()));
}

#[test]
fn ttl_beyond_the_end_of_time_never_expires() {
    let mut store = Store::new();
    store.set(b"k", b"v", Some(u64::MAX), 100);
    assert_eq!(store.get(b"k", u64::MAX - 1), Some(b"v".to_vec()));
    store.set(b"j", b"w", Some(10), u64::MAX - 5);
    assert_eq!(store.get(b"j", u64::MAX - 1), Some(b"w".to_vec()));
    store.set(b"i", b"x", Some(4), u64::MAX - 5);
    assert_eq!(store.get(b"i", u64::MAX - 2), Some(b"x".to_vec()));
    assert_eq!(store.get(b"i", u64::MAX - 1), None);
}

#[test]
fn last_time_there_is_sees_nothing() {
    let mut store = Store::new();
    store.set(b"k", b"v", None, 0);
    assert_eq!(NO_EXPIRY, u64::MAX);
    assert_eq!(store.get(b"k", NO_EXPIRY), None);
}

#[test]
fn second_set_overwrites_the_first() {
    let mut store = Store::new();
    store.set(b"k", b"v1", None, 1);
    store.set(b"k", b"v2", None, 2);
    assert_eq!(store.get(b"k", 3), Some(b"v2".to_vec()));
}

#[test]
fn overwrite_takes_value_and_expiry_together() {
    let mut store = Store::new();
    store.set(b"k", b"short", Some(10), 100);
    store.set(b"k", b"long", None, 101);
    assert_eq!(store.get(b"k", 200), Some(b"long".to_vec()));
    store.set(b"k", b"short", Some(10), 300);
    assert_eq!(store.get(b"k", 309), Some(b"short".to_vec()));
    assert_eq!(store.get(b"k", 310), None);
}

#[test]
fn expired_key_can_be_set_again() {
    let mut store = Store::new();
    store.set(b"k", b"v1", Some(1), 0);
    assert_eq!(store.get(b"k", 5), None);
    store.set(b"k", b"v2", Some(10), 5);
    assert_eq!(store.get(b"k", 6), Some(b"v2".to_vec()));
}

#[test]
fn overwrite_leaves_other_keys_alone() {
    let mut store = Store::new();
    store.set(b"a", b"1", None, 0);
    store.set(b"b", b"2", None, 0);
    store.set(b"c", b"3", None, 0);
    store.set(b"b", b"two", None, 1);
    assert_eq!(store.get(b"a", 2), Some(b"1".to_vec()));
    assert_eq!(store.get(b"b", 2), Some(b"two".to_vec()));
    assert_eq!(store.get(b"c", 2), Some(b"3".to_vec()));
}

#[test]
fn keys_and_values_are_any_bytes() {
    let mut store = Store::new();
    store.set(b"", b"", None, 0);
    store.set(b"\x00\xff", b"\r\n", None, 0);
    store.set(b"ERR", b"ERR", None, 0);
    assert_eq!(store.get(b"", 1), Some(Vec::new()));
    assert_eq!(store.get(b"\x00\xff", 1), Some(b"\r\n".to_vec()));
    assert_eq!(store.get(b"ERR", 1), Some(b"ERR".to_vec()));
    assert_eq!(store.get(b"\x00", 1), None);
}

#[test]
fn read_gives_a_copy() {
    let mut store = Store::new();
    store.set(b"k", b"v", None, 0);
    let mut copy = store.get(b"k", 1).unwrap();
    copy.push(b'!');
    assert_eq!(store.get(b"k", 1), Some(b"v".to_vec()));
}
