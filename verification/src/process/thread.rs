//! The background drivers of a node. Each is a small state machine: the loop
//! that owns the timer tells it what happened, and is told what to do next.

use vstd::prelude::*;

pub mod query_execution;
pub mod snapshot_deleter;

verus! {

/// The time between two ticks of a driver, in milliseconds.
pub const TICK_MILLIS: u64 = 100;

/// What a driver is told.
#[derive(Clone, Copy, Debug, PartialEq, Eq, Structural)]
pub enum Event {
    /// The timer fired.
    Tick,
    /// The work that the driver asked for has ended.
    Finished { outcome: Outcome },
}

/// How one piece of work ended.
#[derive(Clone, Copy, Debug, PartialEq, Eq, Structural)]
pub enum Outcome {
    /// It did something, and more may be left.
    Progress,
    /// It found nothing to do.
    Quiet,
    /// It failed or panicked. The driver goes on.
    Failed,
}

/// What a driver asks for.
#[derive(Clone, Copy, Debug, PartialEq, Eq, Structural)]
pub enum Action {
    /// Do one piece of work now, and report how it ended.
    Run,
    /// Wait for the next tick, `millis` milliseconds after the last.
    Sleep { millis: u64 },
}

/// What a driver is doing.
#[derive(Clone, Copy, Debug, PartialEq, Eq, Structural)]
pub enum Phase {
    /// It waits for the timer.
    Waiting,
    /// Work that it asked for is under way.
    Running,
}

/// The time between two heartbeats of a leader, in milliseconds.
pub const HEARTBEAT_MILLIS: u64 = 50;

/// The shortest time without a heartbeat after which a follower stands for
/// election, in milliseconds.
pub const ELECTION_WINDOW_MIN_MILLIS: u64 = 150;

/// The bound below which every election window lies, in milliseconds.
pub const ELECTION_WINDOW_MAX_MILLIS: u64 = 300;

/// What a driver asks for that does one piece of work at every tick, as the
/// drivers of snapshot deletion and of heartbeats do: a tick starts the
/// work, and when it has ended, however it ended, the driver sleeps.
pub open spec fn spec_once_per_tick(event: Event, millis: u64) -> Action {
    match event {
        Event::Tick => Action::Run,
        Event::Finished { outcome } => Action::Sleep { millis },
    }
}

/// What a driver asks for that works until nothing is left to do, as the
/// drivers of query execution, of replication and of application do: a tick
/// starts a round; a round that did something is followed by another at
/// once; one that found nothing to do, or failed, by sleep.
pub open spec fn spec_until_quiet(event: Event, millis: u64) -> Action {
    match event {
        Event::Tick => Action::Run,
        Event::Finished { outcome: Outcome::Progress } => Action::Run,
        Event::Finished { outcome } => Action::Sleep { millis },
    }
}

/// What a driver is doing once it has asked for `action`.
pub open spec fn phase_after(action: Action) -> Phase {
    match action {
        Action::Run => Phase::Running,
        Action::Sleep { millis } => Phase::Waiting,
    }
}

/// What a driver asks for that does one piece of work at every tick.
#[verifier::when_used_as_spec(spec_once_per_tick)]
pub fn once_per_tick(event: Event, millis: u64) -> (action: Action)
    ensures
        action == spec_once_per_tick(event, millis),
{
    match event {
        Event::Tick => Action::Run,
        Event::Finished { outcome } => Action::Sleep { millis },
    }
}

/// What a driver asks for that works until nothing is left to do.
#[verifier::when_used_as_spec(spec_until_quiet)]
pub fn until_quiet(event: Event, millis: u64) -> (action: Action)
    ensures
        action == spec_until_quiet(event, millis),
{
    match event {
        Event::Tick => Action::Run,
        Event::Finished { outcome } => match outcome {
            Outcome::Progress => Action::Run,
            _ => Action::Sleep { millis },
        },
    }
}

/// What a driver asks for whose work is the leader's alone, as replication
/// and heartbeats are: `action` on a leader, sleep on any other node.
pub fn leader_only(action: Action, is_leader: bool, millis: u64) -> (gated: Action)
    ensures
        gated == if is_leader {
            action
        } else {
            Action::Sleep { millis }
        },
{
    if is_leader {
        action
    } else {
        Action::Sleep { millis }
    }
}

/// The time without a heartbeat after which a follower stands for election,
/// in milliseconds, from a number drawn at random: spread evenly over the
/// window, so that two followers seldom stand at once.
pub fn election_window(random: u64) -> (millis: u64)
    ensures
        millis == ELECTION_WINDOW_MIN_MILLIS + (random as int) % (ELECTION_WINDOW_MAX_MILLIS
            - ELECTION_WINDOW_MIN_MILLIS),
        ELECTION_WINDOW_MIN_MILLIS <= millis < ELECTION_WINDOW_MAX_MILLIS,
{
    ELECTION_WINDOW_MIN_MILLIS + random % (ELECTION_WINDOW_MAX_MILLIS - ELECTION_WINDOW_MIN_MILLIS)
}

} // verus!
