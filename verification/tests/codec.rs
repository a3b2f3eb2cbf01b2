use bytes::Bytes;
use lol2::clock::Clock;
use lol2::codec::{CLOCK_LEN, ENTRY_HEAD_LEN};
use lol2::entry::Entry;

#[test]
fn entry_is_stored_as_two_clocks_and_the_command() {
    let e = Entry {
        prev_clock: Clock { term: 1, index: 2 },
        this_clock: Clock { term: 0x0102, index: 3 },
        command: Bytes::from_static(b"cmd"),
    };
    let bytes = e.encode();
    assert_eq!(bytes.len(), ENTRY_HEAD_LEN + 3);
    assert_eq!(CLOCK_LEN * 2, ENTRY_HEAD_LEN);
    assert_eq!(&bytes[0..8], &[1, 0, 0, 0, 0, 0, 0, 0]);
    assert_eq!(&bytes[8..16], &[2, 0, 0, 0, 0, 0, 0, 0]);
    assert_eq!(&bytes[16..24], &[2, 1, 0, 0, 0, 0, 0, 0]);
    assert_eq!(&bytes[24..32], &[3, 0, 0, 0, 0, 0, 0, 0]);
    assert_eq!(&bytes[32..], b"cmd");
}

#[test]
fn stored_entry_reads_back() {
    for command in [&b""[..], b"x", b"\x00\xff some longer command"] {
        let e = Entry {
            prev_clock: Clock { term: u64::MAX, index: 41 },
            this_clock: Clock { term: u64::MAX, index: 42 },
            command: Bytes::copy_from_slice(command),
        };
        let back = Entry::decode(&e.encode()).unwrap();
        assert_eq!(back.prev_clock, e.prev_clock);
        assert_eq!(back.this_clock, e.this_clock);
        assert_eq!(back.command, e.command);
        assert_eq!(back.encode(), e.encode());
    }
}

#[test]
fn too_few_octets_store_no_entry() {
    assert!(Entry::decode(&vec![]).is_none());
    assert!(Entry::decode(&vec![0; 31]).is_none());
    let e = Entry::decode(&vec![0; 32]).unwrap();
    assert_eq!(e.this_clock, Clock { term: 0, index: 0 });
    assert!(e.command.is_empty());
}

#[test]
fn duplicate_keeps_the_entry() {
    let e = Entry {
        prev_clock: Clock { term: 1, index: 2 },
        this_clock: Clock { term: 1, index: 3 },
        command: Bytes::from_static(b"cmd"),
    };
    let d = e.duplicate();
    assert_eq!(d.prev_clock, e.prev_clock);
    assert_eq!(d.this_clock, e.this_clock);
    assert_eq!(d.command, e.command);
}
