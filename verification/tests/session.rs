use tiny_kv::session::{after_read, after_read_at, Action};
use tiny_kv::store::Store;

#[test]
fn end_of_stream_closes_the_session() {
    let mut store = Store::new();
    assert_eq!(after_read_at(Some(&b""[..]), &mut store, 0), Action::Close);
    assert_eq!(after_read(Some(&b""[..]), &mut store), Action::Close);
}

#[test]
fn failed_read_closes_the_session() {
    let mut store = Store::new();
    assert_eq!(after_read_at(None, &mut store, 0), Action::Close);
    assert_eq!(after_read(None, &mut store), Action::Close);
}

#[test]
fn request_is_answered_and_the_session_goes_on() {
    let mut store = Store::new();
    assert_eq!(
        after_read_at(Some(&b"*1\r\n$4\r\nPING\r\n"[..]), &mut store, 0),
        Action::Answer(b"+PONG\r\n".to_vec())
    );
    assert_eq!(
        after_read_at(Some(&b"*3\r\n$3\r\nSET\r\n$1\r\nk\r\n$1\r\nv\r\n"[..]), &mut store, 0),
        Action::Answer(b"+OK\r\n".to_vec())
    );
    assert_eq!(
        after_read(Some(&b"*2\r\n$3\r\nGET\r\n$1\r\nk\r\n"[..]), &mut store),
        Action::Answer(b"$1\r\nv\r\n".to_vec())
    );
}

#[test]
fn malformed_request_does_not_close_the_session() {
    let mut store = Store::new();
    store.set(b"k", b"v", None, 0);
    assert_eq!(
        after_read_at(Some(&b"*2\r\n$3\r\nGET\r\n"[..]), &mut store, 1),
        Action::Answer(b"-ERR\r\n".to_vec())
    );
    assert_eq!(
        after_read_at(Some(&b"\x00"[..]), &mut store, 1),
        Action::Answer(b"-ERR\r\n".to_vec())
    );
    assert_eq!(
        after_read_at(Some(&b"*2\r\n$3\r\nGET\r\n$1\r\nk\r\n"[..]), &mut store, 1),
        Action::Answer(b"$1\r\nv\r\n".to_vec())
    );
}

#[test]
fn closing_leaves_the_store_alone() {
    let mut store = Store::new();
    store.set(b"k", b"v", None, 0);
    assert_eq!(after_read_at(None, &mut store, 1), Action::Close);
    assert_eq!(after_read_at(Some(&b""[..]), &mut store, 1), Action::Close);
    assert_eq!(store.get(b"k", 1), Some(b"v".to_vec()));
}
