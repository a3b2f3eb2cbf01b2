//! The driver that dispatches the queries whose read index has been applied.

use crate::process::command_log::CommandLog;
use crate::process::query_queue::{from_on, waiting_below, Query, QueryQueue};
use crate::process::thread::{
    phase_after, spec_until_quiet, until_quiet, Action, Event, Phase, TICK_MILLIS,
};
use vstd::prelude::*;

verus! {

/// The driver of query execution: at every tick it takes queries out of the
/// queue until none is due, then it waits for the next tick.
#[derive(Clone, Copy, Debug, PartialEq, Eq, Structural)]
pub struct Thread {
    pub phase: Phase,
}

impl Thread {
    /// Takes out of the queue, for dispatch, the queries whose read index
    /// the user pointer has reached. The first result says whether there
    /// was any.
    pub fn advance_once(&self, query_queue: &mut QueryQueue, command_log: &CommandLog) -> (r: (
        bool,
        Vec<Query>,
    ))
        ensures
            r.1@ == waiting_below(old(query_queue).reserved(), command_log@.user_pointer + 1),
            r.0 == (r.1@.len() > 0),
            final(query_queue).reserved() == old(query_queue).reserved().restrict(
                from_on(command_log@.user_pointer + 1),
            ),
    {
        let last_applied = command_log.user_pointer();
        query_queue.execute(last_applied)
    }

    /// Takes an event and says what to do next: a tick starts a round; a
    /// round that dispatched something is followed by another at once; one
    /// that found nothing, or failed, by sleep until the next tick.
    pub fn step(&mut self, event: Event) -> (action: Action)
        ensures
            action == spec_until_quiet(event, TICK_MILLIS),
            final(self).phase == phase_after(action),
    {
        let action = until_quiet(event, TICK_MILLIS);
        self.phase = match action {
            Action::Run => Phase::Running,
            Action::Sleep { millis } => Phase::Waiting,
        };
        action
    }
}

/// A driver of query execution that waits for its first tick.
pub fn new() -> (thread: Thread)
    ensures
        thread.phase == Phase::Waiting,
{
    Thread { phase: Phase::Waiting }
}

} // verus!
