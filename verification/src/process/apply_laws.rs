//! What a snapshot stands for: the state that the application reaches by
//! processing the commands before it.

use vstd::prelude::*;

verus! {

/// The state that an application reaches from `state` by processing
/// `commands` in order, where `step` is what processing one command does.
pub open spec fn replay<S>(step: spec_fn(S, Seq<u8>) -> S, state: S, commands: Seq<Seq<u8>>) -> S
    decreases commands.len(),
{
    if commands.len() == 0 {
        state
    } else {
        step(replay(step, state, commands.drop_last()), commands.last())
    }
}

/// Install-snapshot then replay equals replay of everything: an application
/// that starts from the state after the first `i` commands and processes the
/// rest reaches the state that processing all commands reaches, so that any
/// query is answered alike.
pub proof fn lemma_snapshot_then_rest<S>(
    step: spec_fn(S, Seq<u8>) -> S,
    init: S,
    commands: Seq<Seq<u8>>,
    i: int,
)
    requires
        0 <= i <= commands.len(),
    ensures
        replay(step, replay(step, init, commands.take(i)), commands.skip(i)) == replay(
            step,
            init,
            commands,
        ),
    decreases commands.len() - i,
{
    let rest = commands.skip(i);
    if rest.len() == 0 {
        assert(commands.take(i) =~= commands);
    } else {
        let shorter = commands.drop_last();
        lemma_snapshot_then_rest(step, init, shorter, i);
        assert(shorter.take(i) =~= commands.take(i));
        assert(shorter.skip(i) =~= rest.drop_last());
        assert(rest.last() == commands.last());
    }
}

} // verus!
