//! Runs of state machines: the state that a sequence of events leads to, and
//! the actions that were asked for on the way.

use vstd::prelude::*;

verus! {

/// What a sequence of events makes of a machine.
pub struct Run<S, A> {
    /// Whether every event was one that the machine was waiting for.
    pub valid: bool,
    /// The state after the last event.
    pub state: S,
    /// The action that each event led to, in order.
    pub actions: Seq<A>,
}

/// Runs a machine over `events`, oldest first.
pub open spec fn run<S, E, A>(
    initial: S,
    accepts: spec_fn(S, E) -> bool,
    next: spec_fn(S, E) -> (S, A),
    events: Seq<E>,
) -> Run<S, A>
    decreases events.len(),
{
    if events.len() == 0 {
        Run { valid: true, state: initial, actions: Seq::empty() }
    } else {
        let before = run(initial, accepts, next, events.drop_last());
        let (state, action) = next(before.state, events.last());
        Run {
            valid: before.valid && accepts(before.state, events.last()),
            state,
            actions: before.actions.push(action),
        }
    }
}

/// One more event extends a run by one transition.
pub proof fn lemma_run_push<S, E, A>(
    initial: S,
    accepts: spec_fn(S, E) -> bool,
    next: spec_fn(S, E) -> (S, A),
    events: Seq<E>,
    event: E,
)
    ensures
        ({
            let before = run(initial, accepts, next, events);
            let after = run(initial, accepts, next, events.push(event));
            let (state, action) = next(before.state, event);
            &&& after.valid == (before.valid && accepts(before.state, event))
            &&& after.state == state
            &&& after.actions == before.actions.push(action)
        }),
{
    assert(events.push(event).drop_last() =~= events);
}

/// A run asks for one action per event.
pub proof fn lemma_run_len<S, E, A>(
    initial: S,
    accepts: spec_fn(S, E) -> bool,
    next: spec_fn(S, E) -> (S, A),
    events: Seq<E>,
)
    ensures
        run(initial, accepts, next, events).actions.len() == events.len(),
    decreases events.len(),
{
    if events.len() > 0 {
        lemma_run_len(initial, accepts, next, events.drop_last());
    }
}

} // verus!
