use bytes::Bytes;
use lol2::clock::Clock;
use lol2::entry::{Entry, SnapshotTag};
use lol2::process::command_log::CommandLog;
use lol2::process::thread::query_execution;
use lol2::process::thread::snapshot_deleter;
use lol2::process::thread::{
    election_window, leader_only, once_per_tick, until_quiet, Action, Event, Outcome, Phase,
    HEARTBEAT_MILLIS, TICK_MILLIS,
};

#[test]
fn tick_is_a_tenth_of_a_second() {
    assert_eq!(TICK_MILLIS, 100);
}

#[test]
fn snapshot_deleter_runs_once_per_tick() {
    let mut t = snapshot_deleter::new();
    assert_eq!(t.phase, Phase::Waiting);
    assert_eq!(t.step(Event::Tick), Action::Run);
    assert_eq!(t.phase, Phase::Running);
    assert_eq!(
        t.step(Event::Finished { outcome: Outcome::Progress }),
        Action::Sleep { millis: 100 }
    );
    assert_eq!(t.phase, Phase::Waiting);
    assert_eq!(t.step(Event::Tick), Action::Run);
    assert_eq!(
        t.step(Event::Finished { outcome: Outcome::Failed }),
        Action::Sleep { millis: 100 }
    );
}

#[test]
fn query_execution_repeats_until_quiet() {
    let mut t = query_execution::new();
    assert_eq!(t.phase, Phase::Waiting);
    assert_eq!(t.step(Event::Tick), Action::Run);
    assert_eq!(t.step(Event::Finished { outcome: Outcome::Progress }), Action::Run);
    assert_eq!(t.phase, Phase::Running);
    assert_eq!(t.step(Event::Finished { outcome: Outcome::Progress }), Action::Run);
    assert_eq!(
        t.step(Event::Finished { outcome: Outcome::Quiet }),
        Action::Sleep { millis: 100 }
    );
    assert_eq!(t.phase, Phase::Waiting);
}

#[test]
fn query_execution_survives_a_failed_round() {
    let mut t = query_execution::new();
    assert_eq!(t.step(Event::Tick), Action::Run);
    assert_eq!(
        t.step(Event::Finished { outcome: Outcome::Failed }),
        Action::Sleep { millis: 100 }
    );
    assert_eq!(t.step(Event::Tick), Action::Run);
}

#[test]
fn leader_only_work_sleeps_elsewhere() {
    let run = until_quiet(Event::Tick, 100);
    assert_eq!(run, Action::Run);
    assert_eq!(leader_only(run, true, 100), Action::Run);
    assert_eq!(leader_only(run, false, 100), Action::Sleep { millis: 100 });
}

#[test]
fn heartbeat_comes_every_fifty_milliseconds() {
    assert_eq!(HEARTBEAT_MILLIS, 50);
    assert_eq!(once_per_tick(Event::Tick, HEARTBEAT_MILLIS), Action::Run);
    assert_eq!(
        once_per_tick(Event::Finished { outcome: Outcome::Progress }, HEARTBEAT_MILLIS),
        Action::Sleep { millis: 50 }
    );
}

#[test]
fn election_window_is_spread_over_its_range() {
    assert_eq!(election_window(0), 150);
    assert_eq!(election_window(149), 299);
    assert_eq!(election_window(150), 150);
    assert_eq!(election_window(u64::MAX), 150 + u64::MAX % 150);
    for r in 0..1000u64 {
        let w = election_window(r * 7919);
        assert!((150..300).contains(&w));
    }
}

#[test]
fn snapshot_deleter_deletes_once() {
    let mut log = CommandLog::new();
    for _ in 0..5 {
        log.append_new_entry(Bytes::from_static(b"x"), 1).unwrap();
    }
    log.advance_commit_pointer(5);
    for _ in 0..5 {
        log.advance_user_pointer();
    }
    let marker = Entry {
        prev_clock: Clock { term: 1, index: 3 },
        this_clock: Clock { term: 1, index: 4 },
        command: Bytes::from_static(b"snapshot"),
    };
    let tag = SnapshotTag { contents: Bytes::new() };
    log.install_snapshot(4, marker, tag).unwrap();
    let t = snapshot_deleter::new();
    assert_eq!(t.run_once(&mut log), Some(4));
    assert!(log.get_entry(3).is_none());
    assert!(log.get_entry(4).is_some());
}
