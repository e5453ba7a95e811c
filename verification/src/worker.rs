//! The worker: it takes the presses that the hook posted, one at a time, and
//! looks for a selection after each.

use crate::machine::{run, Run};
use vstd::prelude::*;

verus! {

/// How long the application under the pointer is given to settle its
/// selection, in milliseconds.
pub const SETTLE_MS: u64 = 50;

/// The concurrency model of a thread in the multithreaded apartment. In a
/// single-threaded one the accessibility client can be re-entered deeply
/// enough to overflow the stack.
pub const COINIT_MULTITHREADED: i32 = 0;

/// How far the worker has come.
#[derive(Clone, Copy, Debug, PartialEq, Eq)]
pub enum WorkerState {
    /// Nothing has been asked for.
    Ready,
    /// Waiting whether COM could be set up.
    Initializing,
    /// Waiting for a press.
    Receiving,
    /// Waiting for the selection to settle.
    Settling { duration_ms: u64 },
    /// Waiting for the detection to end.
    Detecting,
    /// Waiting for COM to be torn down.
    Uninitializing,
    /// The worker has returned.
    Finished,
}

/// The replies that the worker waits for.
#[derive(Clone, Copy, Debug, PartialEq, Eq)]
pub enum WorkerEvent {
    /// The worker begins.
    Start,
    /// Whether COM could be set up.
    Initialized(bool),
    /// The duration of a press; nothing where none will come any more.
    Received(Option<u64>),
    /// What was asked for is done.
    Done,
}

/// What the worker asks for.
#[derive(Clone, Copy, Debug, PartialEq, Eq)]
pub enum WorkerAction {
    /// Set COM up for this thread, with this concurrency model.
    Initialize { concurrency: i32 },
    /// Wait for a press.
    Receive,
    /// Wait for this many milliseconds.
    Sleep(u64),
    /// Look for a selection, and report it with this duration.
    Detect(u64),
    /// Tear COM down.
    Uninitialize,
    /// Return.
    Return,
}

/// Whether an event is one that the state waits for.
pub open spec fn worker_accepts(state: WorkerState, event: WorkerEvent) -> bool {
    match state {
        WorkerState::Ready => event is Start,
        WorkerState::Initializing => event is Initialized,
        WorkerState::Receiving => event is Received,
        WorkerState::Settling { duration_ms } => event is Done,
        WorkerState::Detecting => event is Done,
        WorkerState::Uninitializing => event is Done,
        WorkerState::Finished => false,
    }
}

/// What an event makes of the state, and what is asked for next.
pub open spec fn worker_next(state: WorkerState, event: WorkerEvent) -> (
    WorkerState,
    WorkerAction,
) {
    match state {
        WorkerState::Ready => (
            WorkerState::Initializing,
            WorkerAction::Initialize { concurrency: COINIT_MULTITHREADED },
        ),
        WorkerState::Initializing => if event->Initialized_0 {
            (WorkerState::Receiving, WorkerAction::Receive)
        } else {
            (WorkerState::Finished, WorkerAction::Return)
        },
        WorkerState::Receiving => match event->Received_0 {
            Some(duration_ms) => (
                WorkerState::Settling { duration_ms },
                WorkerAction::Sleep(SETTLE_MS),
            ),
            None => (WorkerState::Uninitializing, WorkerAction::Uninitialize),
        },
        WorkerState::Settling { duration_ms } => (
            WorkerState::Detecting,
            WorkerAction::Detect(duration_ms),
        ),
        WorkerState::Detecting => (WorkerState::Receiving, WorkerAction::Receive),
        WorkerState::Uninitializing => (WorkerState::Finished, WorkerAction::Return),
        WorkerState::Finished => (state, WorkerAction::Return),
    }
}

/// One step of the worker.
pub fn worker_loop(state: WorkerState, event: WorkerEvent) -> (r: (WorkerState, WorkerAction))
    requires
        worker_accepts(state, event),
    ensures
        r == worker_next(state, event),
{
    match (state, event) {
        (WorkerState::Ready, _) => (
            WorkerState::Initializing,
            WorkerAction::Initialize { concurrency: COINIT_MULTITHREADED },
        ),
        (WorkerState::Initializing, WorkerEvent::Initialized(true)) => (
            WorkerState::Receiving,
            WorkerAction::Receive,
        ),
        (WorkerState::Receiving, WorkerEvent::Received(Some(duration_ms))) => (
            WorkerState::Settling { duration_ms },
            WorkerAction::Sleep(SETTLE_MS),
        ),
        (WorkerState::Receiving, _) => (WorkerState::Uninitializing, WorkerAction::Uninitialize),
        (WorkerState::Settling { duration_ms }, _) => (
            WorkerState::Detecting,
            WorkerAction::Detect(duration_ms),
        ),
        (WorkerState::Detecting, _) => (WorkerState::Receiving, WorkerAction::Receive),
        _ => (WorkerState::Finished, WorkerAction::Return),
    }
}

/// The run of the worker over a sequence of events.
pub open spec fn worker_run(events: Seq<WorkerEvent>) -> Run<WorkerState, WorkerAction> {
    run(
        WorkerState::Ready,
        |s: WorkerState, e: WorkerEvent| worker_accepts(s, e),
        |s: WorkerState, e: WorkerEvent| worker_next(s, e),
        events,
    )
}

/// The presses that were received, in order.
pub open spec fn received(events: Seq<WorkerEvent>) -> Seq<u64>
    decreases events.len(),
{
    if events.len() == 0 {
        Seq::empty()
    } else {
        let before = received(events.drop_last());
        match events.last() {
            WorkerEvent::Received(Some(duration_ms)) => before.push(duration_ms),
            _ => before,
        }
    }
}

/// The presses after which a selection was looked for, in order.
pub open spec fn detected(actions: Seq<WorkerAction>) -> Seq<u64>
    decreases actions.len(),
{
    if actions.len() == 0 {
        Seq::empty()
    } else {
        let before = detected(actions.drop_last());
        match actions.last() {
            WorkerAction::Detect(duration_ms) => before.push(duration_ms),
            _ => before,
        }
    }
}

/// How often COM was torn down.
pub open spec fn times_uninitialized(actions: Seq<WorkerAction>) -> nat
    decreases actions.len(),
{
    if actions.len() == 0 {
        0
    } else {
        times_uninitialized(actions.drop_last()) + if actions.last() is Uninitialize {
            1nat
        } else {
            0nat
        }
    }
}

/// How often COM was set up with success.
pub open spec fn times_initialized(events: Seq<WorkerEvent>) -> nat
    decreases events.len(),
{
    if events.len() == 0 {
        0
    } else {
        times_initialized(events.drop_last()) + if events.last() == WorkerEvent::Initialized(true) {
            1nat
        } else {
            0nat
        }
    }
}

/// What is known of the state after any events that the worker waited for.
proof fn lemma_worker_state(events: Seq<WorkerEvent>)
    requires
        worker_run(events).valid,
    ensures
        ({
            let outcome = worker_run(events);
            let up = times_initialized(events);
            let down = times_uninitialized(outcome.actions);
            &&& outcome.actions.len() == events.len()
            &&& match outcome.state {
                WorkerState::Settling { duration_ms } => {
                    &&& received(events) =~= detected(outcome.actions).push(duration_ms)
                    &&& outcome.actions.last() == WorkerAction::Sleep(SETTLE_MS)
                    &&& up == 1
                    &&& down == 0
                },
                WorkerState::Ready => up == 0 && down == 0 && received(events) =~= detected(
                    outcome.actions,
                ),
                WorkerState::Initializing => up == 0 && down == 0 && received(events) =~= detected(
                    outcome.actions,
                ),
                WorkerState::Uninitializing => up == 1 && down == 1 && received(events)
                    =~= detected(outcome.actions),
                WorkerState::Finished => up == down && up <= 1 && received(events) =~= detected(
                    outcome.actions,
                ),
                _ => up == 1 && down == 0 && received(events) =~= detected(outcome.actions),
            }
        }),
    decreases events.len(),
{
    if events.len() > 0 {
        let before = events.drop_last();
        lemma_worker_state(before);
        let earlier = worker_run(before);
        let outcome = worker_run(events);
        let (state, action) = worker_next(earlier.state, events.last());
        assert(outcome.actions == earlier.actions.push(action));
        assert(outcome.actions.drop_last() =~= earlier.actions);
    }
}

/// After every press that was received, and after no other, a selection is
/// looked for once, in the order in which the presses came. Only the press
/// that is settling still has its turn to come.
pub proof fn law_every_press_is_looked_after(events: Seq<WorkerEvent>)
    requires
        worker_run(events).valid,
    ensures
        match worker_run(events).state {
            WorkerState::Settling { duration_ms } => received(events) == detected(
                worker_run(events).actions,
            ).push(duration_ms),
            _ => received(events) == detected(worker_run(events).actions),
        },
{
    lemma_worker_state(events);
}

/// A selection is looked for only once it has had the time to settle.
pub proof fn law_selection_settles_before_it_is_read(events: Seq<WorkerEvent>, i: int)
    requires
        worker_run(events).valid,
        0 <= i < events.len(),
        worker_run(events).actions[i] is Detect,
    ensures
        i > 0,
        worker_run(events).actions[i - 1] == WorkerAction::Sleep(SETTLE_MS),
    decreases events.len(),
{
    let before = events.drop_last();
    lemma_worker_state(before);
    let earlier = worker_run(before);
    let outcome = worker_run(events);
    let (state, action) = worker_next(earlier.state, events.last());
    assert(outcome.actions == earlier.actions.push(action));
    if i < before.len() {
        assert(outcome.actions[i] == earlier.actions[i]);
        law_selection_settles_before_it_is_read(before, i);
        assert(outcome.actions[i - 1] == earlier.actions[i - 1]);
    } else {
        assert(earlier.state is Settling);
        if before.len() == 0 {
            assert(earlier.state is Ready);
        }
        assert(outcome.actions[i - 1] == earlier.actions.last());
    }
}

/// Once the worker has returned, COM has been torn down as often as it was set
/// up.
pub proof fn law_worker_tears_down_what_it_set_up(events: Seq<WorkerEvent>)
    requires
        worker_run(events).valid,
        worker_run(events).state is Finished,
    ensures
        times_uninitialized(worker_run(events).actions) == times_initialized(events),
{
    lemma_worker_state(events);
}

/// What was asked for last, going by the state.
proof fn lemma_worker_asked(events: Seq<WorkerEvent>)
    requires
        worker_run(events).valid,
    ensures
        ({
            let outcome = worker_run(events);
            let asked = outcome.actions.last();
            match outcome.state {
                WorkerState::Ready => events.len() == 0,
                WorkerState::Initializing => asked is Initialize,
                WorkerState::Receiving => asked is Receive,
                WorkerState::Settling { duration_ms } => asked is Sleep && events.len() > 0
                    && events.last() == WorkerEvent::Received(Some(duration_ms)),
                WorkerState::Detecting => asked is Detect,
                WorkerState::Uninitializing => asked is Uninitialize,
                WorkerState::Finished => asked is Return,
            }
        }),
    decreases events.len(),
{
    if events.len() > 0 {
        let before = events.drop_last();
        lemma_worker_asked(before);
        let earlier = worker_run(before);
        let outcome = worker_run(events);
        let (state, action) = worker_next(earlier.state, events.last());
        assert(outcome.actions == earlier.actions.push(action));
    }
}

/// What each reply leads to, in every run. COM is set up in the multithreaded
/// apartment, and where that fails the worker returns. Every press, however
/// long it took, is followed by the same wait and then by a look for a
/// selection with its own duration; after that the next press is waited for.
/// Where none will come any more, COM is torn down and the worker returns.
pub proof fn law_working_goes_step_by_step(events: Seq<WorkerEvent>)
    requires
        worker_run(events).valid,
        events.len() > 0,
    ensures
        ({
            let asked = worker_run(events.drop_last()).actions.last();
            let action = worker_run(events).actions.last();
            match events.last() {
                WorkerEvent::Start => events.len() == 1 && action == (WorkerAction::Initialize {
                    concurrency: COINIT_MULTITHREADED,
                }),
                WorkerEvent::Initialized(set_up) => if set_up {
                    action is Receive
                } else {
                    action is Return
                },
                WorkerEvent::Received(Some(_)) => action == WorkerAction::Sleep(SETTLE_MS),
                WorkerEvent::Received(None) => action is Uninitialize,
                WorkerEvent::Done => match asked {
                    WorkerAction::Sleep(_) => events.len() > 1 && match events[events.len() - 2] {
                        WorkerEvent::Received(Some(duration_ms)) => action == WorkerAction::Detect(
                            duration_ms,
                        ),
                        _ => false,
                    },
                    WorkerAction::Detect(_) => action is Receive,
                    _ => asked is Uninitialize && action is Return,
                },
            }
        }),
{
    let before = events.drop_last();
    lemma_worker_asked(before);
    if before.len() > 0 {
        assert(before.last() == events[events.len() - 2]);
    }
    let earlier = worker_run(before);
    let outcome = worker_run(events);
    let (state, action) = worker_next(earlier.state, events.last());
    assert(outcome.actions == earlier.actions.push(action));
    assert(outcome.actions.last() == action);
}

/// The worker takes every reply to what it asked for last, and nothing else.
/// Once it has returned it takes nothing any more.
pub proof fn law_working_takes_every_reply(events: Seq<WorkerEvent>, event: WorkerEvent)
    requires
        worker_run(events).valid,
    ensures
        worker_run(events.push(event)).valid <==> if events.len() == 0 {
            event is Start
        } else {
            match worker_run(events).actions.last() {
                WorkerAction::Initialize { .. } => event is Initialized,
                WorkerAction::Receive => event is Received,
                WorkerAction::Sleep(_) => event is Done,
                WorkerAction::Detect(_) => event is Done,
                WorkerAction::Uninitialize => event is Done,
                WorkerAction::Return => false,
            }
        },
{
    lemma_worker_asked(events);
    assert(events.push(event).drop_last() =~= events);
}

/// A step can be made for every reply that is waited for, and it is the one that
/// the runs are made of.
pub proof fn law_working_is_made_of_steps(
    state: WorkerState,
    event: WorkerEvent,
    result: (WorkerState, WorkerAction),
)
    requires
        worker_accepts(state, event),
    ensures
        call_requires(worker_loop, (state, event)),
        call_ensures(worker_loop, (state, event), result) ==> (result.0, result.1) == worker_next(
            state,
            event,
        ),
{
}

} // verus!
