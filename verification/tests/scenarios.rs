use bytes::Bytes;
use lol2::clock::Clock;
use lol2::entry::{Entry, SnapshotTag};
use lol2::node_id::NodeId;
use lol2::process::command_log::{CommandLog, TryInsertResult};
use lol2::process::completion::UserCompletion;
use lol2::process::peer_svc::replication::{Advance, Reply};
use lol2::process::peer_svc::PeerSvc;
use lol2::process::query_queue::{Query, QueryQueue};
use lol2::process::voter::{Role, Voter};
use tokio::sync::oneshot::channel;

fn node_id(n: usize) -> NodeId {
    NodeId::from_str(&format!("http://lol-testapp-{n}:50000")).unwrap()
}

/// The application of the scenarios: a counter that grows by the length of
/// each command and answers with its new value.
struct Counter(u64);

impl Counter {
    fn process_write(&mut self, command: &Bytes) -> Bytes {
        self.0 += command.len() as u64;
        self.save_snapshot()
    }

    fn process_read(&self) -> Bytes {
        self.save_snapshot()
    }

    fn save_snapshot(&self) -> Bytes {
        Bytes::copy_from_slice(&self.0.to_le_bytes())
    }

    fn install_snapshot(&mut self, snapshot: &Bytes) {
        self.0 = number(snapshot);
    }
}

fn number(bytes: &Bytes) -> u64 {
    let mut raw = [0u8; 8];
    raw.copy_from_slice(&bytes[..8]);
    u64::from_le_bytes(raw)
}

fn fetch_add_command(n: usize) -> Bytes {
    Bytes::from(vec![1u8; n])
}

struct Node {
    id: usize,
    log: CommandLog,
    voter: Voter,
    peers: PeerSvc,
    queue: QueryQueue,
    app: Counter,
}

fn cluster(n: usize) -> Vec<Node> {
    (0..n)
        .map(|id| {
            let mut peers = PeerSvc::new(node_id(id));
            for other in 0..n {
                if other != id {
                    assert!(peers.add_peer(node_id(other), 1));
                }
            }
            Node {
                id,
                log: CommandLog::new(),
                voter: Voter::new(node_id(id)),
                peers,
                queue: QueryQueue::new(),
                app: Counter(0),
            }
        })
        .collect()
}

fn two(nodes: &mut [Node], a: usize, b: usize) -> (&mut Node, &mut Node) {
    assert!(a != b);
    if a < b {
        let (left, right) = nodes.split_at_mut(b);
        (&mut left[a], &mut right[0])
    } else {
        let (left, right) = nodes.split_at_mut(a);
        (&mut right[0], &mut left[b])
    }
}

/// Runs an election for `candidate` among the nodes of `voters`.
fn elect(nodes: &mut [Node], candidate: usize, voters: &[usize]) -> bool {
    let size = nodes.len();
    assert!(nodes[candidate].voter.election_timeout());
    let term = nodes[candidate].voter.current_term();
    let last = nodes[candidate].log.last_clock();
    let mut grants = 1;
    for v in voters {
        if *v == candidate {
            continue;
        }
        let own = nodes[*v].log.last_clock();
        let ballot = nodes[*v].voter.receive_request_vote(term, &node_id(candidate), last, own);
        if ballot.granted {
            grants += 1;
        } else {
            nodes[candidate].voter.observe_term(ballot.term);
        }
    }
    let won = nodes[candidate].voter.count_votes(term, grants, size);
    if won {
        let last_index = nodes[candidate].log.get_log_last_index();
        nodes[candidate].peers.reset_progress(last_index);
    }
    won
}

fn write(leader: &mut Node, n: usize) -> u64 {
    assert!(leader.voter.is_leader());
    let term = leader.voter.current_term();
    leader.log.append_new_entry(fetch_add_command(n), term).unwrap()
}

/// One round of replication from `leader` to `follower`. Says whether another
/// round is due, and whether this one was rejected.
fn replicate(nodes: &mut [Node], leader: usize, follower: usize, reachable: bool) -> (bool, bool) {
    let (l, f) = two(nodes, leader, follower);
    let fid = node_id(follower);
    assert!(l.peers.knows(&fid));
    match l.peers.advance_replication(&fid, &l.log).unwrap() {
        Advance::Idle => (false, false),
        Advance::Reset => (true, false),
        Advance::Send { stream, count, progress, from_snapshot } => {
            assert!(stream.sender_id.is_same(&node_id(leader)));
            if !reachable {
                l.peers.complete_replication(&fid, progress, count, Reply::Lost);
                return (true, false);
            }
            let term = l.voter.current_term();
            let ballot = f.voter.receive_heartbeat(term, &stream.sender_id);
            if !ballot.granted {
                l.voter.observe_term(ballot.term);
                l.peers.complete_replication(&fid, progress, count, Reply::Lost);
                return (false, false);
            }
            let mut prev = stream.prev_clock;
            let mut first = stream.first;
            if from_snapshot && !f.log.holds_clock(prev) {
                let entry = l.log.get_entry(first).unwrap();
                let tag = l.log.get_tag(first).unwrap();
                prev = entry.this_clock;
                let payload = tag.contents.clone();
                if f.log.install_snapshot(first, entry, tag).unwrap() {
                    f.app.install_snapshot(&payload);
                }
                first += 1;
            }
            let elems = PeerSvc::stream_elems(&l.log, first, stream.end).unwrap();
            let reply = match f.log.try_insert_stream(prev, &elems).unwrap() {
                TryInsertResult::Accept => Reply::Accepted,
                TryInsertResult::Reject { log_last_index } => Reply::Rejected { log_last_index },
            };
            let rejected = reply != Reply::Accepted;
            l.peers.complete_replication(&fid, progress, count, reply);
            (true, rejected)
        }
    }
}

fn replicate_until_idle(nodes: &mut [Node], leader: usize, follower: usize) -> usize {
    let mut rounds = 0;
    while replicate(nodes, leader, follower, true).0 {
        rounds += 1;
        assert!(rounds < 100_000);
    }
    rounds
}

fn commit(leader: &mut Node) -> bool {
    let last = leader.log.get_log_last_index();
    let q = leader.peers.find_new_commit_index(last);
    leader.log.commit_quorum(q, leader.voter.current_term())
}

fn heartbeat(nodes: &mut [Node], leader: usize, follower: usize) {
    let (l, f) = two(nodes, leader, follower);
    let ballot = f.voter.receive_heartbeat(l.voter.current_term(), &node_id(leader));
    if ballot.granted {
        f.log.advance_commit_pointer(l.log.commit_pointer());
    } else {
        l.voter.observe_term(ballot.term);
    }
}

fn apply_all(node: &mut Node) -> Vec<(u64, u64)> {
    let mut responses = vec![];
    while let Some(entry) = node.log.next_to_apply() {
        let response = node.app.process_write(&entry.command);
        assert!(node.log.advance_user_pointer());
        assert_eq!(node.log.user_pointer(), entry.this_clock.index);
        responses.push((entry.this_clock.index, number(&response)));
    }
    responses
}

fn read(node: &mut Node) -> u64 {
    let (tx, mut rx) = channel();
    let query = Query { message: Bytes::new(), user_completion: UserCompletion::new(tx) };
    let read_index = node.log.commit_pointer();
    node.queue.register(read_index, query);
    apply_all(node);
    let (any, due) = node.queue.execute(node.log.user_pointer());
    assert!(any);
    for q in due {
        let response = node.app.process_read();
        assert!(q.complete(Some(response)));
    }
    number(&rx.try_recv().unwrap())
}

fn assert_pointers_ordered(node: &Node) {
    let log = &node.log;
    assert!(log.snapshot_pointer() <= log.user_pointer());
    assert!(log.user_pointer() <= log.commit_pointer());
    assert!(log.commit_pointer() <= log.get_log_last_index());
}

fn assert_same_entries(a: &Node, b: &Node, from: u64, to: u64) {
    for i in from..=to {
        let x = a.log.get_entry(i).unwrap();
        let y = b.log.get_entry(i).unwrap();
        assert_eq!(x.this_clock, y.this_clock, "clock at {i} on {} and {}", a.id, b.id);
        assert_eq!(x.prev_clock, y.prev_clock);
        assert_eq!(x.command, y.command);
    }
}

#[test]
fn single_node_fetch_add() {
    let mut nodes = cluster(1);
    assert!(elect(&mut nodes, 0, &[0]));
    let n = &mut nodes[0];
    assert_eq!(write(n, 1), 1);
    assert!(commit(n));
    assert_eq!(apply_all(n), vec![(1, 1)]);
    assert_eq!(write(n, 10), 2);
    assert!(commit(n));
    assert_eq!(apply_all(n), vec![(2, 11)]);
    assert_eq!(read(n), 11);
    assert_pointers_ordered(n);
}

#[test]
fn follower_catch_up() {
    let mut nodes = cluster(3);
    assert!(elect(&mut nodes, 0, &[0, 1, 2]));
    for k in 1..=100u64 {
        assert_eq!(write(&mut nodes[0], 1), k);
        replicate_until_idle(&mut nodes, 0, 1);
        assert!(replicate(&mut nodes, 0, 2, false).0);
        assert!(commit(&mut nodes[0]));
        assert_eq!(apply_all(&mut nodes[0]), vec![(k, k)]);
    }
    assert_eq!(nodes[2].log.get_log_last_index(), 0);
    assert_eq!(nodes[0].log.commit_pointer(), 100);
    replicate_until_idle(&mut nodes, 0, 2);
    heartbeat(&mut nodes, 0, 2);
    apply_all(&mut nodes[2]);
    assert_eq!(nodes[2].log.user_pointer(), 100);
    assert_eq!(nodes[2].app.0, 100);
    assert_same_entries(&nodes[0], &nodes[2], 1, 100);
    assert_eq!(read(&mut nodes[0]), 100);
    for n in &nodes {
        assert_pointers_ordered(n);
    }
}

#[test]
fn snapshot_install() {
    let mut nodes = cluster(3);
    assert!(elect(&mut nodes, 0, &[0, 1, 2]));
    for _ in 0..10_000 {
        write(&mut nodes[0], 1);
    }
    replicate_until_idle(&mut nodes, 0, 1);
    assert!(commit(&mut nodes[0]));
    apply_all(&mut nodes[0]);
    assert_eq!(nodes[0].app.0, 10_000);

    let at = nodes[0].log.user_pointer();
    let marked = nodes[0].log.get_entry(at).unwrap();
    let snapshot = Entry {
        prev_clock: marked.prev_clock,
        this_clock: marked.this_clock,
        command: Bytes::from_static(b"snapshot"),
    };
    let tag = SnapshotTag { contents: nodes[0].app.save_snapshot() };
    assert_eq!(nodes[0].log.install_snapshot(at, snapshot, tag), Ok(false));
    assert_eq!(nodes[0].log.delete_old_snapshots(), Some(10_000));
    assert!(nodes[0].log.get_entry(9_999).is_none());
    assert_eq!(write(&mut nodes[0], 1), 10_001);

    let fresh = Node {
        id: 3,
        log: CommandLog::new(),
        voter: Voter::new(node_id(3)),
        peers: PeerSvc::new(node_id(3)),
        queue: QueryQueue::new(),
        app: Counter(0),
    };
    nodes.push(fresh);
    assert!(nodes[0].peers.add_peer(node_id(3), 1));
    let rounds = replicate_until_idle(&mut nodes, 0, 3);
    assert_eq!(rounds, 3);
    assert_eq!(nodes[3].log.snapshot_pointer(), 10_000);
    assert_eq!(nodes[3].log.user_pointer(), 10_000);
    assert_eq!(nodes[3].app.0, 10_000);
    assert_eq!(nodes[3].log.get_log_last_index(), 10_001);
    assert_eq!(read(&mut nodes[3]), 10_000);
    assert_pointers_ordered(&nodes[3]);
}

#[test]
fn split_brain_healed() {
    let mut nodes = cluster(5);
    assert!(elect(&mut nodes, 0, &[0, 1, 2, 3, 4]));
    assert_eq!(nodes[0].voter.current_term(), 1);

    // {0, 1} are cut off from {2, 3, 4}: the old leader cannot commit.
    for _ in 0..3 {
        write(&mut nodes[0], 7);
        replicate_until_idle(&mut nodes, 0, 1);
        for other in [2, 3, 4] {
            replicate(&mut nodes, 0, other, false);
        }
        assert!(!commit(&mut nodes[0]));
    }
    assert_eq!(nodes[0].log.commit_pointer(), 0);
    assert_eq!(nodes[1].log.get_log_last_index(), 3);

    // The majority elects node 2 and commits 50 writes.
    assert!(elect(&mut nodes, 2, &[2, 3, 4]));
    assert_eq!(nodes[2].voter.current_term(), 2);
    for k in 1..=50u64 {
        assert_eq!(write(&mut nodes[2], 1), k);
        replicate_until_idle(&mut nodes, 2, 3);
        replicate_until_idle(&mut nodes, 2, 4);
        for other in [0, 1] {
            replicate(&mut nodes, 2, other, false);
        }
        assert!(commit(&mut nodes[2]));
        assert_eq!(apply_all(&mut nodes[2]), vec![(k, k)]);
    }

    // Healed: the old leader steps down, and every log converges.
    for other in [0, 1, 3, 4] {
        replicate_until_idle(&mut nodes, 2, other);
        heartbeat(&mut nodes, 2, other);
        apply_all(&mut nodes[other]);
    }
    assert_eq!(nodes[0].voter.role(), Role::Follower);
    assert_eq!(nodes[0].voter.current_term(), 2);
    for n in &nodes {
        assert_eq!(n.log.get_log_last_index(), 50);
        assert_eq!(n.log.commit_pointer(), 50);
        assert_eq!(n.log.user_pointer(), 50);
        assert_eq!(n.app.0, 50);
        assert_pointers_ordered(n);
    }
    for other in [0, 1, 3, 4] {
        assert_same_entries(&nodes[2], &nodes[other], 1, 50);
    }
    assert_eq!(read(&mut nodes[2]), 50);
}

#[test]
fn rejection_backoff() {
    let mut nodes = cluster(2);
    let shared: Vec<_> = (1..=49u64)
        .map(|i| lol2::process::log_stream::LogStreamElem {
            this_clock: Clock { term: 1, index: i },
            command: fetch_add_command(1),
        })
        .collect();
    for n in nodes.iter_mut() {
        assert_eq!(
            n.log.try_insert_stream(Clock { term: 0, index: 0 }, &shared),
            Ok(TryInsertResult::Accept)
        );
    }
    let suffix = |term: u64, to: u64| -> Vec<_> {
        (50..=to)
            .map(|i| lol2::process::log_stream::LogStreamElem {
                this_clock: Clock { term, index: i },
                command: fetch_add_command(2),
            })
            .collect()
    };
    let at_49 = Clock { term: 1, index: 49 };
    assert_eq!(nodes[1].log.try_insert_stream(at_49, &suffix(2, 60)), Ok(TryInsertResult::Accept));
    assert_eq!(nodes[0].log.try_insert_stream(at_49, &suffix(3, 60)), Ok(TryInsertResult::Accept));
    nodes[0].voter.observe_term(2);
    assert!(elect(&mut nodes, 0, &[0, 1]));
    assert_eq!(nodes[0].voter.current_term(), 3);
    assert_eq!(write(&mut nodes[0], 1), 61);

    let (_, rejected) = replicate(&mut nodes, 0, 1, true);
    assert!(rejected);
    let mut rounds = 1;
    let mut rejections = 1;
    loop {
        let (again, rejected) = replicate(&mut nodes, 0, 1, true);
        if !again {
            break;
        }
        rounds += 1;
        if rejected {
            rejections += 1;
            assert_eq!(
                nodes[0].peers.get_progress(&node_id(1)).unwrap().next_index,
                61 - rejections
            );
        }
    }
    assert_eq!(rejections, 11);
    assert_eq!(rounds, 11 + 4);
    let progress = nodes[0].peers.get_progress(&node_id(1)).unwrap();
    assert_eq!(progress.match_index, 61);
    assert_eq!(progress.next_index, 62);
    assert_eq!(nodes[1].log.get_log_last_index(), 61);
    assert_same_entries(&nodes[0], &nodes[1], 1, 61);
    assert!(commit(&mut nodes[0]));
    assert_eq!(nodes[0].log.commit_pointer(), 61);
}
