use bytes::Bytes;
use lol2::node_id::NodeId;
use lol2::process::command::Command;
use lol2::process::completion::UserCompletion;
use lol2::process::peer_svc::replication::ReplicationProgress;
use lol2::process::query_queue::Query;
use lol2::process::raft_process::{RaftProcess, ReadOutcome, WriteOutcome};
use tokio::sync::oneshot::{channel, Receiver};

fn node(n: u32) -> NodeId {
    NodeId::from_str(&format!("http://lol-testapp-{n}:50000")).unwrap()
}

fn waiter() -> (UserCompletion, Receiver<Bytes>) {
    let (tx, rx) = channel();
    (UserCompletion::new(tx), rx)
}

fn leader() -> RaftProcess {
    let mut p = RaftProcess::new(node(0), 16, 1000);
    assert!(p.voter.election_timeout());
    assert!(p.voter.count_votes(1, 1, 1));
    p
}

/// Applies what is committed to a counter that grows by the length of each
/// message, and answers those that wait.
fn apply_all(p: &mut RaftProcess, counter: &mut u64, now: u64) {
    while let Some(entry) = p.command_log.next_to_apply() {
        let command = Command::decode(&entry.command).unwrap();
        *counter += command.message.len() as u64;
        let response = Bytes::copy_from_slice(&counter.to_le_bytes());
        for w in p.complete_apply(response.clone(), now) {
            w.complete_with(response.clone());
        }
    }
}

fn number(bytes: Bytes) -> u64 {
    let mut raw = [0u8; 8];
    raw.copy_from_slice(&bytes[..8]);
    u64::from_le_bytes(raw)
}

#[test]
fn follower_refuses_writes_and_reads_with_a_hint() {
    let mut p = RaftProcess::new(node(1), 16, 1000);
    p.voter.receive_heartbeat(3, &node(0));
    let (w, mut rx) = waiter();
    match p.write(b"r1".to_vec(), vec![1], w, 0) {
        WriteOutcome::NotLeader { leader, completion } => {
            assert!(leader.unwrap().is_same(&node(0)));
            assert!(completion.complete_with(Bytes::from_static(b"back")));
        }
        other => panic!("{other:?}"),
    }
    assert_eq!(rx.try_recv().unwrap(), Bytes::from_static(b"back"));
    assert_eq!(p.command_log.get_log_last_index(), 0);
    let (w, _rx) = waiter();
    let q = Query { message: Bytes::new(), user_completion: w };
    assert!(matches!(p.read(q), ReadOutcome::NotLeader { .. }));
}

#[test]
fn new_write_is_appended_with_its_request_id() {
    let mut p = leader();
    let (w, _rx) = waiter();
    assert!(matches!(p.write(b"r1".to_vec(), b"abc".to_vec(), w, 0), WriteOutcome::Appended { index: 1 }));
    let entry = p.command_log.get_entry(1).unwrap();
    assert_eq!(entry.this_clock.term, 1);
    let command = Command::decode(&entry.command).unwrap();
    assert_eq!(command.request_id, b"r1");
    assert_eq!(command.message, b"abc");
    assert_eq!(p.find_unapplied(&b"r1".to_vec()), Some(1));
    assert_eq!(p.find_unapplied(&b"r2".to_vec()), None);
}

#[test]
fn retry_before_application_makes_no_second_entry() {
    let mut p = leader();
    let (w1, mut rx1) = waiter();
    let (w2, mut rx2) = waiter();
    assert!(matches!(p.write(b"r1".to_vec(), vec![1], w1, 0), WriteOutcome::Appended { index: 1 }));
    assert!(matches!(p.write(b"r1".to_vec(), vec![1], w2, 5), WriteOutcome::Attached { index: 1 }));
    assert_eq!(p.command_log.get_log_last_index(), 1);
    p.command_log.advance_commit_pointer(1);
    let mut counter = 0;
    apply_all(&mut p, &mut counter, 10);
    assert_eq!(counter, 1);
    assert_eq!(number(rx1.try_recv().unwrap()), 1);
    assert_eq!(number(rx2.try_recv().unwrap()), 1);
}

#[test]
fn retry_after_application_gets_the_first_answer() {
    let mut p = leader();
    let (w1, mut rx1) = waiter();
    p.write(b"r1".to_vec(), vec![1], w1, 0);
    let (w2, mut rx2) = waiter();
    p.write(b"r2".to_vec(), vec![1; 10], w2, 0);
    p.command_log.advance_commit_pointer(2);
    let mut counter = 0;
    apply_all(&mut p, &mut counter, 100);
    assert_eq!(number(rx1.try_recv().unwrap()), 1);
    assert_eq!(number(rx2.try_recv().unwrap()), 11);
    let (w3, mut rx3) = waiter();
    assert!(matches!(
        p.write(b"r1".to_vec(), vec![1], w3, 600),
        WriteOutcome::Answered { delivered: true }
    ));
    assert_eq!(number(rx3.try_recv().unwrap()), 1);
    assert_eq!(p.command_log.get_log_last_index(), 2);
    assert_eq!(counter, 11);
}

#[test]
fn retry_after_the_time_to_live_is_a_new_write() {
    let mut p = leader();
    let (w1, _rx1) = waiter();
    p.write(b"r1".to_vec(), vec![1], w1, 0);
    p.command_log.advance_commit_pointer(1);
    let mut counter = 0;
    apply_all(&mut p, &mut counter, 100);
    let (w2, _rx2) = waiter();
    assert!(matches!(p.write(b"r1".to_vec(), vec![1], w2, 1101), WriteOutcome::Appended { index: 2 }));
}

#[test]
fn read_waits_for_the_commit_pointer_of_its_moment() {
    let mut p = leader();
    let (w, _rx) = waiter();
    p.write(b"r1".to_vec(), vec![1], w, 0);
    let (w, _rx) = waiter();
    p.write(b"r2".to_vec(), vec![1], w, 0);
    p.command_log.advance_commit_pointer(2);
    let (w, mut rx) = waiter();
    let q = Query { message: Bytes::from_static(b"read"), user_completion: w };
    assert!(matches!(p.read(q), ReadOutcome::Registered { read_index: 2 }));
    let mut counter = 0;
    let (any, due) = p.query_queue.execute(p.command_log.user_pointer());
    assert!(!any && due.is_empty());
    apply_all(&mut p, &mut counter, 0);
    let (any, due) = p.query_queue.execute(p.command_log.user_pointer());
    assert!(any);
    for q in due {
        q.complete(Some(Bytes::copy_from_slice(&counter.to_le_bytes())));
    }
    assert_eq!(number(rx.try_recv().unwrap()), 2);
}

#[test]
fn entry_that_stores_no_command_is_applied_without_waiters() {
    let mut p = leader();
    p.command_log.append_new_entry(Bytes::from_static(b"raw"), 1).unwrap();
    p.command_log.advance_commit_pointer(1);
    assert!(p.complete_apply(Bytes::new(), 0).is_empty());
    assert_eq!(p.command_log.user_pointer(), 1);
    assert!(p.complete_apply(Bytes::new(), 0).is_empty());
    assert_eq!(p.command_log.user_pointer(), 1);
}

#[test]
fn leader_crash_mid_replication() {
    // Node 0 leads, accepts the write and replicates it to node 1, then
    // crashes before it answers.
    let mut old_leader = leader();
    let (w, mut lost) = waiter();
    assert!(matches!(
        old_leader.write(b"req-1".to_vec(), vec![1], w, 0),
        WriteOutcome::Appended { index: 1 }
    ));
    let stream = lol2::process::peer_svc::PeerSvc::stream_elems(&old_leader.command_log, 1, 2).unwrap();
    let mut p = RaftProcess::new(node(1), 16, 1000);
    p.voter.receive_heartbeat(1, &node(0));
    p.command_log.try_insert_stream(lol2::clock::Clock::origin(), &stream).unwrap();
    drop(old_leader);
    assert!(lost.try_recv().is_err());

    // Node 1 wins the next election with the vote of node 2.
    assert!(p.voter.election_timeout());
    assert!(p.voter.count_votes(2, 2, 3));

    // The client retries with the same request id against the new leader.
    let (w, mut rx) = waiter();
    assert!(matches!(
        p.write(b"req-1".to_vec(), vec![1], w, 50),
        WriteOutcome::Attached { index: 1 }
    ));
    assert_eq!(p.command_log.get_log_last_index(), 1);

    // A write of the new term lets the leader commit both.
    let (w, _rx2) = waiter();
    assert!(matches!(
        p.write(b"req-2".to_vec(), vec![], w, 60),
        WriteOutcome::Appended { index: 2 }
    ));
    assert!(!p.command_log.commit_quorum(1, 2));
    assert!(p.command_log.commit_quorum(2, 2));
    let mut counter = 0;
    apply_all(&mut p, &mut counter, 70);
    assert_eq!(number(rx.try_recv().unwrap()), 1);

    let mut with_id = 0;
    for i in 1..=p.command_log.get_log_last_index() {
        let entry = p.command_log.get_entry(i).unwrap();
        if Command::decode(&entry.command).unwrap().request_id == b"req-1" {
            with_id += 1;
        }
    }
    assert_eq!(with_id, 1);
}

#[test]
fn election_win_resets_the_followers() {
    let mut p = RaftProcess::new(node(0), 16, 1000);
    p.peers.add_peer(node(1), 1);
    p.peers.add_peer(node(2), 1);
    for _ in 0..4 {
        p.command_log.append_new_entry(Bytes::from_static(b"x"), 0).unwrap();
    }
    assert!(p.voter.election_timeout());
    assert!(!p.conclude_election(1, 1));
    assert_eq!(p.peers.get_progress(&node(1)), Some(ReplicationProgress::new(1)));
    assert!(p.conclude_election(1, 2));
    assert!(p.voter.is_leader());
    let fresh = ReplicationProgress { match_index: 0, next_index: 5, next_max_cnt: 1 };
    assert_eq!(p.peers.get_progress(&node(1)), Some(fresh));
    assert_eq!(p.peers.get_progress(&node(2)), Some(fresh));
}

#[test]
fn write_to_a_full_log_hands_the_promise_back() {
    let mut p = leader();
    let last = u64::MAX - 1;
    let marker = lol2::entry::Entry {
        prev_clock: lol2::clock::Clock { term: 0, index: 0 },
        this_clock: lol2::clock::Clock { term: 1, index: last },
        command: Bytes::from_static(b"snapshot"),
    };
    let tag = lol2::entry::SnapshotTag { contents: Bytes::new() };
    p.command_log.install_snapshot(last, marker, tag).unwrap();
    let (w, mut rx) = waiter();
    match p.write(b"r1".to_vec(), vec![1], w, 0) {
        WriteOutcome::Full { completion } => {
            drop(completion);
        }
        other => panic!("{other:?}"),
    }
    assert!(rx.try_recv().is_err());
    assert_eq!(p.command_log.get_log_last_index(), last);
}

#[test]
fn follower_takes_the_commit_pointer_from_the_heartbeat() {
    let mut p = RaftProcess::new(node(1), 16, 1000);
    for _ in 0..3 {
        p.command_log.append_new_entry(Bytes::from_static(b"x"), 1).unwrap();
    }
    let b = p.receive_heartbeat(1, &node(0), 2);
    assert!(b.granted);
    assert_eq!(b.term, 1);
    assert_eq!(p.command_log.commit_pointer(), 2);
    let b = p.receive_heartbeat(1, &node(0), 9);
    assert!(b.granted);
    assert_eq!(p.command_log.commit_pointer(), 3);
    let b = p.receive_heartbeat(0, &node(2), 9);
    assert!(!b.granted);
    assert_eq!(b.term, 1);
    assert!(p.voter.leader_hint().unwrap().is_same(&node(0)));
}

#[test]
fn vote_is_weighed_against_the_own_log() {
    let mut p = RaftProcess::new(node(1), 16, 1000);
    for _ in 0..3 {
        p.command_log.append_new_entry(Bytes::from_static(b"x"), 2).unwrap();
    }
    let short = lol2::clock::Clock { term: 2, index: 2 };
    let equal = lol2::clock::Clock { term: 2, index: 3 };
    assert!(!p.receive_request_vote(3, &node(0), short).granted);
    assert!(p.receive_request_vote(3, &node(0), equal).granted);
    assert!(!p.receive_request_vote(3, &node(2), equal).granted);
}

#[test]
fn leader_commits_what_a_majority_stores() {
    let mut p = RaftProcess::new(node(0), 16, 1000);
    p.peers.add_peer(node(1), 1);
    p.peers.add_peer(node(2), 1);
    assert!(!p.commit_replicated());
    p.voter.election_timeout();
    assert!(p.conclude_election(1, 2));
    for _ in 0..4 {
        p.command_log.append_new_entry(Bytes::from_static(b"x"), 1).unwrap();
    }
    assert!(!p.commit_replicated());
    let planned = p.peers.get_progress(&node(1)).unwrap();
    p.peers.complete_replication(
        &node(1),
        planned,
        3,
        lol2::process::peer_svc::replication::Reply::Accepted,
    );
    assert!(p.commit_replicated());
    assert_eq!(p.command_log.commit_pointer(), 3);
    assert!(!p.commit_replicated());
}
