//! The event store run against a real backing file: compare-and-append,
//! ordered replay, conflict reporting, isolation between streams, and
//! persistence across handles.

use dnd_scheduler::keys::{make_key, version_from_key};
use dnd_scheduler::store::{AppendError, RedbEventStore};

fn fresh_path() -> String {
    format!("/tmp/dnd_scheduler_{}.redb", uuid::Uuid::new_v4())
}

#[test]
fn first_append_and_read() {
    let path = fresh_path();
    let mut store = RedbEventStore::new(&path).unwrap();
    assert_eq!(store.append("poll-42", b"vote:yes", 0).unwrap(), 1);
    let history = store.read_stream("poll-42").unwrap();
    assert_eq!(history, vec![b"vote:yes".to_vec()]);
}

#[test]
fn stale_append_conflicts_and_changes_nothing() {
    let path = fresh_path();
    let mut store = RedbEventStore::new(&path).unwrap();
    assert_eq!(store.append("poll-42", b"vote:yes", 0).unwrap(), 1);
    match store.append("poll-42", b"vote:no", 0) {
        Err(AppendError::ConcurrencyConflict { expected, actual }) => {
            assert_eq!(expected, 0);
            assert_eq!(actual, 1);
        }
        other => panic!("expected a concurrency conflict, got {:?}", other),
    }
    let history = store.read_stream("poll-42").unwrap();
    assert_eq!(history, vec![b"vote:yes".to_vec()]);
}

#[test]
fn append_at_tip_extends_in_order() {
    let path = fresh_path();
    let mut store = RedbEventStore::new(&path).unwrap();
    assert_eq!(store.append("poll-42", b"vote:yes", 0).unwrap(), 1);
    assert_eq!(store.append("poll-42", b"vote:no", 1).unwrap(), 2);
    let history = store.read_stream("poll-42").unwrap();
    assert_eq!(history, vec![b"vote:yes".to_vec(), b"vote:no".to_vec()]);
}

#[test]
fn never_written_stream_reads_empty() {
    let path = fresh_path();
    let store = RedbEventStore::new(&path).unwrap();
    let history = store.read_stream("poll-999").unwrap();
    assert!(history.is_empty());
}

#[test]
fn prefixed_stream_ids_stay_isolated() {
    let path = fresh_path();
    let mut store = RedbEventStore::new(&path).unwrap();
    assert_eq!(store.append("poll-1", b"a", 0).unwrap(), 1);
    assert_eq!(store.append("poll-10", b"b", 0).unwrap(), 1);
    assert_eq!(store.read_stream("poll-1").unwrap(), vec![b"a".to_vec()]);
    assert_eq!(store.read_stream("poll-10").unwrap(), vec![b"b".to_vec()]);
}

#[test]
fn appends_to_one_stream_leave_others_alone() {
    let path = fresh_path();
    let mut store = RedbEventStore::new(&path).unwrap();
    assert_eq!(store.append("stream-a", b"a1", 0).unwrap(), 1);
    assert_eq!(store.append("stream-b", b"b1", 0).unwrap(), 1);
    assert_eq!(store.append("stream-a", b"a2", 1).unwrap(), 2);
    assert_eq!(store.read_stream("stream-b").unwrap(), vec![b"b1".to_vec()]);
    assert_eq!(
        store.read_stream("stream-a").unwrap(),
        vec![b"a1".to_vec(), b"a2".to_vec()]
    );
}

#[test]
fn many_appends_replay_in_version_order() {
    let path = fresh_path();
    let mut store = RedbEventStore::new(&path).unwrap();
    for i in 0..25u64 {
        let payload = format!("event-{}", i);
        assert_eq!(store.append("long", payload.as_bytes(), i).unwrap(), i + 1);
    }
    let history = store.read_stream("long").unwrap();
    assert_eq!(history.len(), 25);
    for (i, payload) in history.iter().enumerate() {
        assert_eq!(payload, format!("event-{}", i).as_bytes());
    }
}

#[test]
fn reopened_store_sees_committed_data() {
    let path = fresh_path();
    {
        let mut store = RedbEventStore::new(&path).unwrap();
        assert_eq!(store.append("poll-7", b"vote:yes", 0).unwrap(), 1);
    }
    let second = RedbEventStore::new(&path).unwrap();
    assert_eq!(
        second.read_stream("poll-7").unwrap(),
        vec![b"vote:yes".to_vec()]
    );
    drop(second);
    let mut third = RedbEventStore::new(&path).unwrap();
    assert_eq!(third.append("poll-7", b"vote:no", 1).unwrap(), 2);
    assert_eq!(
        third.read_stream("poll-7").unwrap(),
        vec![b"vote:yes".to_vec(), b"vote:no".to_vec()]
    );
}

#[test]
fn unusable_path_reports_storage_error() {
    let result = RedbEventStore::new("/tmp/no-such-dir-for-store/x/y.redb");
    match result {
        Err(e) => assert!(!e.message.is_empty()),
        Ok(_) => panic!("opening under a missing directory should fail"),
    }
}

#[test]
fn keys_pad_versions_to_fixed_width() {
    assert_eq!(make_key("poll-42", 1), "poll-42/00000000000000000001");
    assert_eq!(
        make_key("poll-42", 18446744073709551615),
        "poll-42/18446744073709551615"
    );
}

#[test]
fn key_order_matches_version_order() {
    let k9 = make_key("s", 9);
    let k10 = make_key("s", 10);
    let k100 = make_key("s", 100);
    assert!(k9 < k10);
    assert!(k10 < k100);
}

#[test]
fn version_parses_back_out_of_keys() {
    assert_eq!(version_from_key(&make_key("poll-42", 1)), 1);
    assert_eq!(version_from_key(&make_key("poll-42", 987654)), 987654);
    assert_eq!(version_from_key("no-separator"), 0);
    assert_eq!(version_from_key("s/not-a-number"), 0);
    assert_eq!(version_from_key("s/99999999999999999999999"), 0);
}

#[test]
fn payloads_are_opaque_bytes() {
    let path = fresh_path();
    let mut store = RedbEventStore::new(&path).unwrap();
    let raw: Vec<u8> = vec![0, 255, 10, 13, 0, 42];
    assert_eq!(store.append("bin", &raw, 0).unwrap(), 1);
    assert_eq!(store.read_stream("bin").unwrap(), vec![raw]);
}
