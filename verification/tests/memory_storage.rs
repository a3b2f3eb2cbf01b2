use bytes::Bytes;
use lol2::clock::Clock;
use lol2::entry::{Entry, SnapshotTag};
use lol2::storage::memory::Storage;
use lol2::vote::Vote;

fn entry(term: u64, index: u64, payload: &'static [u8]) -> Entry {
    Entry {
        prev_clock: Clock { term, index: index - 1 },
        this_clock: Clock { term, index },
        command: Bytes::from_static(payload),
    }
}

#[test]
fn empty_storage_has_last_index_zero() {
    let s = Storage::new();
    assert_eq!(s.get_last_index(), 0);
    assert_eq!(s.get_snapshot_index(), 0);
    assert!(s.get_entry(1).is_none());
    assert!(s.list_tags().is_empty());
    let v: Vote = s.load_vote();
    assert_eq!(v.current_term, 0);
    assert!(v.voted_for.is_none());
}

#[test]
fn insert_and_get_entries() {
    let mut s = Storage::new();
    s.insert_entry(1, entry(1, 1, b"a"));
    s.insert_entry(2, entry(1, 2, b"b"));
    s.insert_entry(5, entry(2, 5, b"e"));
    assert_eq!(s.get_last_index(), 5);
    let e = s.get_entry(2).unwrap();
    assert_eq!(e.this_clock, Clock { term: 1, index: 2 });
    assert_eq!(e.command, Bytes::from_static(b"b"));
    assert!(s.get_entry(3).is_none());
}

#[test]
fn delete_before_removes_entries_and_tags_below() {
    let mut s = Storage::new();
    for i in 1..=10u64 {
        s.insert_entry(i, entry(1, i, b"x"));
    }
    s.put_tag(3, SnapshotTag { contents: Bytes::from_static(b"t3") });
    s.put_tag(7, SnapshotTag { contents: Bytes::from_static(b"t7") });
    s.delete_before(7);
    assert!(s.get_entry(6).is_none());
    assert!(s.get_entry(7).is_some());
    assert_eq!(s.get_last_index(), 10);
    let tags: Vec<u64> = s.list_tags().into_iter().collect();
    assert_eq!(tags, vec![7]);
    assert!(s.get_tag(3).is_none());
    assert_eq!(s.get_tag(7).unwrap().contents, Bytes::from_static(b"t7"));
}

#[test]
fn test_mem_storage() {
    let mut s = Storage::new();
    assert_eq!(s.get_last_index(), 0);
    assert_eq!(s.get_snapshot_index(), 0);
    assert!(s.get_entry(1).is_none());

    s.insert_snapshot(1, entry(0, 1, b"sn1"));
    assert_eq!(s.get_last_index(), 1);
    assert_eq!(s.get_snapshot_index(), 1);
    assert!(s.get_entry(1).is_some());
    assert!(s.get_entry(2).is_none());

    for i in 2..=5u64 {
        s.insert_entry(i, entry(1, i, b"e"));
        assert_eq!(s.get_last_index(), i);
        assert_eq!(s.get_snapshot_index(), 1);
    }

    s.insert_snapshot(4, entry(1, 4, b"sn4"));
    assert_eq!(s.get_snapshot_index(), 4);
    assert_eq!(s.get_last_index(), 5);
    assert_eq!(s.get_entry(4).unwrap().command, Bytes::from_static(b"sn4"));
    s.insert_snapshot(3, entry(1, 3, b"sn3"));
    assert_eq!(s.get_snapshot_index(), 4);

    s.delete_before(4);
    assert!(s.get_entry(3).is_none());
    assert!(s.get_entry(4).is_some());
    assert_eq!(s.get_last_index(), 5);

    s.delete_from(5);
    assert_eq!(s.get_last_index(), 4);
    assert!(s.get_entry(5).is_none());

    let v = Vote {
        current_term: 3,
        voted_for: Some(lol2::node_id::NodeId::from_str("http://node-9:50000").unwrap()),
    };
    s.store_vote(v);
    let loaded = s.load_vote();
    assert_eq!(loaded.current_term, 3);
    assert_eq!(loaded.voted_for.unwrap().uri().host(), Some("node-9"));

    s.put_tag(4, SnapshotTag { contents: Bytes::from_static(b"a") });
    s.put_tag(4, SnapshotTag { contents: Bytes::from_static(b"b") });
    assert_eq!(s.get_tag(4).unwrap().contents, Bytes::from_static(b"b"));
    s.delete_tag(4);
    s.delete_tag(4);
    assert!(s.get_tag(4).is_none());
    assert!(s.list_tags().is_empty());
}
