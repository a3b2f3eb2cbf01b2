use lol2::process::peer_svc::replication::{
    plan_replication, progress_after, Plan, ReplicationProgress, Reply,
};

fn progress(match_index: u64, next_index: u64, next_max_cnt: u64) -> ReplicationProgress {
    ReplicationProgress { match_index, next_index, next_max_cnt }
}

#[test]
fn new_progress_sends_one_entry_first() {
    let p = ReplicationProgress::new(7);
    assert_eq!(p, progress(0, 7, 1));
}

#[test]
fn nothing_to_send_when_next_is_beyond_the_log() {
    assert_eq!(plan_replication(progress(10, 11, 4), 10, 0), Plan::Idle);
    assert_eq!(plan_replication(progress(0, 1, 1), 0, 0), Plan::Idle);
}

#[test]
fn compacted_prefix_resets_to_the_snapshot() {
    let plan = plan_replication(progress(3, 4, 8), 20, 10);
    assert_eq!(plan, Plan::Reset { progress: progress(0, 10, 1) });
}

#[test]
fn next_index_at_the_snapshot_is_sent() {
    let plan = plan_replication(progress(0, 10, 1), 20, 10);
    assert_eq!(plan, Plan::Send { first: 10, count: 1 });
}

#[test]
fn window_limits_the_stream() {
    assert_eq!(plan_replication(progress(0, 1, 4), 100, 0), Plan::Send { first: 1, count: 4 });
}

#[test]
fn end_of_log_limits_the_stream() {
    assert_eq!(plan_replication(progress(0, 98, 16), 100, 0), Plan::Send { first: 98, count: 3 });
    assert_eq!(plan_replication(progress(0, 100, 16), 100, 0), Plan::Send { first: 100, count: 1 });
}

#[test]
fn acceptance_moves_indices_and_doubles_the_window() {
    let p = progress_after(progress(0, 5, 4), 4, Reply::Accepted);
    assert_eq!(p, progress(8, 9, 8));
    let p = progress_after(progress(8, 9, 8), 1, Reply::Accepted);
    assert_eq!(p, progress(9, 10, 2));
}

#[test]
fn window_stops_growing_at_the_largest_number() {
    let big = u64::MAX / 2 + 1;
    let p = progress_after(progress(0, 1, big), big, Reply::Accepted);
    assert_eq!(p.next_max_cnt, u64::MAX);
    assert_eq!(p.match_index, big);
    assert_eq!(p.next_index, big + 1);
}

#[test]
fn rejection_steps_back_by_one_when_the_follower_is_ahead() {
    let p = progress_after(progress(3, 50, 8), 8, Reply::Rejected { log_last_index: 60 });
    assert_eq!(p, progress(3, 49, 1));
}

#[test]
fn rejection_jumps_behind_a_short_follower_log() {
    let p = progress_after(progress(3, 50, 8), 8, Reply::Rejected { log_last_index: 20 });
    assert_eq!(p, progress(3, 21, 1));
}

#[test]
fn lost_answer_changes_nothing() {
    let before = progress(3, 50, 8);
    assert_eq!(progress_after(before, 8, Reply::Lost), before);
}
