use lol2::node_id::NodeId;
use lol2::process::peer_svc::commit::quorum_index;
use lol2::process::peer_svc::replication::{ReplicationProgress, Reply};
use lol2::process::peer_svc::PeerSvc;

fn node(n: u32) -> NodeId {
    NodeId::from_str(&format!("http://node-{n}:50000")).unwrap()
}

#[test]
fn single_node_commits_its_own_log() {
    assert_eq!(quorum_index(&vec![7]), 7);
}

#[test]
fn three_nodes_commit_the_second_largest() {
    assert_eq!(quorum_index(&vec![5, 3, 4]), 4);
    assert_eq!(quorum_index(&vec![0, 0, 9]), 0);
    assert_eq!(quorum_index(&vec![9, 0, 9]), 9);
}

#[test]
fn five_nodes_commit_the_third_largest() {
    assert_eq!(quorum_index(&vec![10, 2, 7, 7, 1]), 7);
    assert_eq!(quorum_index(&vec![10, 0, 0, 0, 10]), 0);
    assert_eq!(quorum_index(&vec![1, 2, 3, 4, 5]), 3);
}

#[test]
fn four_nodes_need_three() {
    assert_eq!(quorum_index(&vec![8, 8, 1, 1]), 1);
    assert_eq!(quorum_index(&vec![8, 8, 8, 1]), 8);
}

#[test]
fn leader_counts_its_own_last_index() {
    let mut svc = PeerSvc::new(node(0));
    assert!(svc.add_peer(node(1), 1));
    assert!(svc.add_peer(node(2), 1));
    assert_eq!(svc.replicated_indices(12), vec![0, 0, 12]);
    assert_eq!(svc.find_new_commit_index(12), 0);
    let p = ReplicationProgress { match_index: 0, next_index: 1, next_max_cnt: 16 };
    svc.complete_replication(&node(1), p, 9, Reply::Accepted);
    assert_eq!(svc.replicated_indices(12), vec![9, 0, 12]);
    assert_eq!(svc.find_new_commit_index(12), 9);
}
