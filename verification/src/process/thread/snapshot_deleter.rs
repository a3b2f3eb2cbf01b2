//! The driver that deletes what installed snapshots have made superfluous.

use crate::clock::Index;
use crate::process::command_log::CommandLog;
use crate::process::thread::{
    once_per_tick, phase_after, spec_once_per_tick, Action, Event, Phase, TICK_MILLIS,
};
use vstd::prelude::*;

verus! {

/// The driver of snapshot deletion: at every tick it deletes once, and
/// whatever comes of that, it waits for the next tick.
#[derive(Clone, Copy, Debug, PartialEq, Eq, Structural)]
pub struct Thread {
    pub phase: Phase,
}

impl Thread {
    /// Deletes once: see [`CommandLog::delete_old_snapshots`].
    pub fn run_once(&self, command_log: &mut CommandLog) -> (r: Option<Index>)
        requires
            old(command_log).wf(),
        ensures
            final(command_log).wf(),
            match r {
                Some(retained) => {
                    &&& old(command_log)@.is_retained_snapshot(retained)
                    &&& final(command_log)@ == old(command_log)@.collect(retained)
                },
                None => old(command_log)@.no_snapshot_to_retain() && final(command_log)@ == old(
                    command_log,
                )@,
            },
    {
        command_log.delete_old_snapshots()
    }

    /// Takes an event and says what to do next: a tick starts one deletion;
    /// when it has ended, however it ended, the driver sleeps until the next
    /// tick.
    pub fn step(&mut self, event: Event) -> (action: Action)
        ensures
            action == spec_once_per_tick(event, TICK_MILLIS),
            final(self).phase == phase_after(action),
    {
        let action = once_per_tick(event, TICK_MILLIS);
        self.phase = match action {
            Action::Run => Phase::Running,
            Action::Sleep { millis } => Phase::Waiting,
        };
        action
    }
}

/// A driver of snapshot deletion that waits for its first tick.
pub fn new() -> (thread: Thread)
    ensures
        thread.phase == Phase::Waiting,
{
    Thread { phase: Phase::Waiting }
}

} // verus!
