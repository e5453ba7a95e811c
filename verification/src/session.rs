//! The life of the monitor: the hook is installed, messages are pumped for as
//! long as there are any, and the hook is removed.

use crate::detection::lines;
use crate::machine::{run, Run};
use vstd::prelude::*;

verus! {

/// The size of the worker's stack, in bytes.
pub const WORKER_STACK_BYTES: usize = 8_388_608;

/// The hook that sees the mouse input of every window before it does.
pub const WH_MOUSE_LL: i32 = 14;

/// Stands for all threads of the desktop.
pub const ALL_THREADS: u32 = 0;

/// How far the session has come.
#[derive(Clone, Copy, Debug, PartialEq, Eq)]
pub enum SessionState {
    /// Nothing has been asked for.
    Ready,
    /// Waiting for the worker to be started.
    Spawning,
    /// Waiting for the handle of the program's module.
    FindingModule,
    /// Waiting for the hook.
    Installing,
    /// Waiting for the complaint to be printed.
    Complaining,
    /// Waiting for the hook to be remembered.
    Remembering { hook: usize },
    /// Waiting for the greeting to be printed.
    Greeting { hook: usize },
    /// Waiting for a message.
    Pumping { hook: usize },
    /// Waiting for a message to be handled.
    Dispatching { hook: usize },
    /// Waiting for the hook to be forgotten.
    Forgetting { hook: usize },
    /// Waiting for the hook to be removed.
    Removing,
    /// The result has been returned.
    Finished,
}

/// The replies that the session waits for.
#[derive(Debug, PartialEq, Eq)]
pub enum SessionEvent<E> {
    /// The session begins.
    Start,
    /// The handle of the program's module.
    Module(Result<usize, E>),
    /// The handle of the hook.
    Hook(Result<usize, E>),
    /// What getting a message gave; 0 where the pump is to stop.
    Message(i32),
    /// What was asked for has been tried; how it went does not matter.
    Done,
}

/// What the session asks for. `L` is the type of the lines to print, and `N`
/// that of a name.
#[derive(Debug, PartialEq, Eq)]
pub enum SessionAction<E, L, N> {
    /// Start the worker, with this name and a stack of this size.
    StartWorker { name: N, stack_bytes: usize },
    /// Get the handle of the program's module.
    ModuleHandle,
    /// Install the mouse hook of this module, as a hook of this kind and for
    /// this thread.
    InstallHook { kind: i32, module: usize, thread: u32 },
    /// Keep this as the handle of the installed hook; 0 stands for none.
    StoreHook(usize),
    /// Print these lines.
    Print(L),
    /// Print these lines as an error.
    PrintError(L),
    /// Get the next message for this window, or for any where there is none.
    /// The message is to lie between the first and the last one given, unless
    /// both are 0.
    NextMessage { window: Option<usize>, first: u32, last: u32 },
    /// Handle the message.
    Dispatch,
    /// Remove this hook.
    RemoveHook(usize),
    /// Return this result.
    Return(Result<(), E>),
}

/// The actions with the lines and the name taken by their views.
pub type SessionActionModel<E> = SessionAction<E, Seq<Seq<char>>, Seq<char>>;

impl<E> View for SessionAction<E, Vec<String>, String> {
    type V = SessionActionModel<E>;

    open spec fn view(&self) -> SessionActionModel<E> {
        match *self {
            SessionAction::StartWorker { name, stack_bytes } => SessionAction::StartWorker {
                name: name@,
                stack_bytes,
            },
            SessionAction::ModuleHandle => SessionAction::ModuleHandle,
            SessionAction::InstallHook { kind, module, thread } => SessionAction::InstallHook {
                kind,
                module,
                thread,
            },
            SessionAction::StoreHook(hook) => SessionAction::StoreHook(hook),
            SessionAction::Print(printed) => SessionAction::Print(lines(printed@)),
            SessionAction::PrintError(printed) => SessionAction::PrintError(lines(printed@)),
            SessionAction::NextMessage { window, first, last } => SessionAction::NextMessage {
                window,
                first,
                last,
            },
            SessionAction::Dispatch => SessionAction::Dispatch,
            SessionAction::RemoveHook(hook) => SessionAction::RemoveHook(hook),
            SessionAction::Return(r) => SessionAction::Return(r),
        }
    }
}

/// Whether a handle is that of no hook: all bits clear, or all set.
pub open spec fn is_invalid_hook(hook: usize) -> bool {
    hook == 0 || hook == usize::MAX
}

/// What is printed where the hook cannot be installed.
pub open spec fn complaint() -> Seq<Seq<char>> {
    seq!["无法安装鼠标钩子！"@]
}

/// What is printed once the hook is installed.
pub open spec fn greeting() -> Seq<Seq<char>> {
    seq![
        "系统监控已启动..."@,
        "请尝试：按住鼠标左键 -> 拖拽选中文字 -> 松开鼠标"@,
        "(短按点击不会触发)"@,
    ]
}

/// Whether an event is one that the state waits for.
pub open spec fn session_accepts<E>(state: SessionState, event: SessionEvent<E>) -> bool {
    match state {
        SessionState::Ready => event is Start,
        SessionState::FindingModule => event is Module,
        SessionState::Installing => event is Hook,
        SessionState::Pumping { hook } => event is Message,
        SessionState::Finished => false,
        _ => event is Done,
    }
}

/// What an event makes of the state, and what is asked for next.
pub open spec fn session_next<E>(state: SessionState, event: SessionEvent<E>) -> (
    SessionState,
    SessionActionModel<E>,
) {
    match state {
        SessionState::Ready => (
            SessionState::Spawning,
            SessionAction::StartWorker {
                name: "uia-worker"@,
                stack_bytes: WORKER_STACK_BYTES,
            },
        ),
        SessionState::Spawning => (SessionState::FindingModule, SessionAction::ModuleHandle),
        SessionState::FindingModule => match event->Module_0 {
            Ok(module) => (
                SessionState::Installing,
                SessionAction::InstallHook { kind: WH_MOUSE_LL, module, thread: ALL_THREADS },
            ),
            Err(e) => (SessionState::Finished, SessionAction::Return(Err(e))),
        },
        SessionState::Installing => match event->Hook_0 {
            Ok(hook) => if is_invalid_hook(hook) {
                (SessionState::Complaining, SessionAction::PrintError(complaint()))
            } else {
                (SessionState::Remembering { hook }, SessionAction::StoreHook(hook))
            },
            Err(e) => (SessionState::Finished, SessionAction::Return(Err(e))),
        },
        SessionState::Complaining => (SessionState::Finished, SessionAction::Return(Ok(()))),
        SessionState::Remembering { hook } => (
            SessionState::Greeting { hook },
            SessionAction::Print(greeting()),
        ),
        SessionState::Greeting { hook } => (
            SessionState::Pumping { hook },
            SessionAction::NextMessage { window: None, first: 0, last: 0 },
        ),
        SessionState::Pumping { hook } => if event->Message_0 != 0 {
            (SessionState::Dispatching { hook }, SessionAction::Dispatch)
        } else {
            (SessionState::Forgetting { hook }, SessionAction::StoreHook(0))
        },
        SessionState::Dispatching { hook } => (
            SessionState::Pumping { hook },
            SessionAction::NextMessage { window: None, first: 0, last: 0 },
        ),
        SessionState::Forgetting { hook } => (
            SessionState::Removing,
            SessionAction::RemoveHook(hook),
        ),
        SessionState::Removing => (SessionState::Finished, SessionAction::Return(Ok(()))),
        SessionState::Finished => (state, SessionAction::Return(Ok(()))),
    }
}

/// The line that complains about the hook.
fn complaint_lines() -> (printed: Vec<String>)
    ensures
        lines(printed@) == complaint(),
{
    let printed: Vec<String> = vec!["无法安装鼠标钩子！".to_owned()];
    assert(lines(printed@) =~= complaint());
    printed
}

/// The lines of the greeting.
fn greeting_lines() -> (printed: Vec<String>)
    ensures
        lines(printed@) == greeting(),
{
    let printed: Vec<String> = vec![
        "系统监控已启动...".to_owned(),
        "请尝试：按住鼠标左键 -> 拖拽选中文字 -> 松开鼠标".to_owned(),
        "(短按点击不会触发)".to_owned(),
    ];
    assert(lines(printed@) =~= greeting());
    printed
}

/// One step of the session.
pub fn run_session<E>(state: SessionState, event: SessionEvent<E>) -> (r: (
    SessionState,
    SessionAction<E, Vec<String>, String>,
))
    requires
        session_accepts(state, event),
    ensures
        (r.0, r.1@) == session_next(state, event),
{
    match (state, event) {
        (SessionState::Ready, _) => (
            SessionState::Spawning,
            SessionAction::StartWorker {
                name: "uia-worker".to_owned(),
                stack_bytes: WORKER_STACK_BYTES,
            },
        ),
        (SessionState::Spawning, _) => (SessionState::FindingModule, SessionAction::ModuleHandle),
        (SessionState::FindingModule, SessionEvent::Module(Ok(module))) => (
            SessionState::Installing,
            SessionAction::InstallHook { kind: WH_MOUSE_LL, module, thread: ALL_THREADS },
        ),
        (SessionState::FindingModule, SessionEvent::Module(Err(e))) => (
            SessionState::Finished,
            SessionAction::Return(Err(e)),
        ),
        (SessionState::Installing, SessionEvent::Hook(Ok(hook))) => if hook == 0 || hook
            == usize::MAX {
            (SessionState::Complaining, SessionAction::PrintError(complaint_lines()))
        } else {
            (SessionState::Remembering { hook }, SessionAction::StoreHook(hook))
        },
        (SessionState::Installing, SessionEvent::Hook(Err(e))) => (
            SessionState::Finished,
            SessionAction::Return(Err(e)),
        ),
        (SessionState::Complaining, _) => (SessionState::Finished, SessionAction::Return(Ok(()))),
        (SessionState::Remembering { hook }, _) => (
            SessionState::Greeting { hook },
            SessionAction::Print(greeting_lines()),
        ),
        (SessionState::Greeting { hook }, _) => (
            SessionState::Pumping { hook },
            SessionAction::NextMessage { window: None, first: 0, last: 0 },
        ),
        (SessionState::Pumping { hook }, SessionEvent::Message(message)) => if message != 0 {
            (SessionState::Dispatching { hook }, SessionAction::Dispatch)
        } else {
            (SessionState::Forgetting { hook }, SessionAction::StoreHook(0))
        },
        (SessionState::Dispatching { hook }, _) => (
            SessionState::Pumping { hook },
            SessionAction::NextMessage { window: None, first: 0, last: 0 },
        ),
        (SessionState::Forgetting { hook }, _) => (
            SessionState::Removing,
            SessionAction::RemoveHook(hook),
        ),
        (SessionState::Removing, _) => (SessionState::Finished, SessionAction::Return(Ok(()))),
        _ => vstd::pervasive::unreached(),
    }
}

/// The run of a session over a sequence of events.
pub open spec fn session_run<E>(events: Seq<SessionEvent<E>>) -> Run<
    SessionState,
    SessionActionModel<E>,
> {
    run(
        SessionState::Ready,
        |s: SessionState, e: SessionEvent<E>| session_accepts(s, e),
        |s: SessionState, e: SessionEvent<E>| session_next(s, e),
        events,
    )
}

/// The hooks that were installed, in order.
pub open spec fn installed<E>(events: Seq<SessionEvent<E>>) -> Seq<usize>
    decreases events.len(),
{
    if events.len() == 0 {
        Seq::empty()
    } else {
        let before = installed(events.drop_last());
        match events.last() {
            SessionEvent::Hook(Ok(hook)) => if hook == 0 || hook == usize::MAX {
                before
            } else {
                before.push(hook)
            },
            _ => before,
        }
    }
}

/// The hooks that were removed, in order.
pub open spec fn removed<E>(actions: Seq<SessionActionModel<E>>) -> Seq<usize>
    decreases actions.len(),
{
    if actions.len() == 0 {
        Seq::empty()
    } else {
        let before = removed(actions.drop_last());
        match actions.last() {
            SessionAction::RemoveHook(hook) => before.push(hook),
            _ => before,
        }
    }
}

/// The handle that was stored last; 0 where none was.
pub open spec fn stored<E>(actions: Seq<SessionActionModel<E>>) -> usize
    decreases actions.len(),
{
    if actions.len() == 0 {
        0
    } else {
        match actions.last() {
            SessionAction::StoreHook(hook) => hook,
            _ => stored(actions.drop_last()),
        }
    }
}

/// The error that an event carries, if any.
pub open spec fn session_error<E>(event: SessionEvent<E>) -> Option<E> {
    match event {
        SessionEvent::Module(Err(e)) => Some(e),
        SessionEvent::Hook(Err(e)) => Some(e),
        _ => None,
    }
}

/// What is known of the state after any events that the session waited for.
proof fn lemma_session_state<E>(events: Seq<SessionEvent<E>>)
    requires
        session_run(events).valid,
    ensures
        ({
            let outcome = session_run(events);
            let up = installed(events);
            let down = removed(outcome.actions);
            let kept = stored(outcome.actions);
            match outcome.state {
                SessionState::Remembering { hook } => up =~= seq![hook] && down =~= Seq::empty()
                    && kept == hook,
                SessionState::Greeting { hook } => up =~= seq![hook] && down =~= Seq::empty()
                    && kept == hook,
                SessionState::Pumping { hook } => up =~= seq![hook] && down =~= Seq::empty()
                    && kept == hook,
                SessionState::Dispatching { hook } => up =~= seq![hook] && down =~= Seq::empty()
                    && kept == hook,
                SessionState::Forgetting { hook } => up =~= seq![hook] && down =~= Seq::empty()
                    && kept == 0,
                SessionState::Removing => up.len() == 1 && down =~= up && kept == 0,
                SessionState::Finished => down =~= up && kept == 0 && events.len() > 0
                    && outcome.actions.last() == SessionActionModel::<E>::Return(
                    match session_error(events.last()) {
                        Some(e) => Err(e),
                        None => Ok(()),
                    },
                ),
                _ => up =~= Seq::empty() && down =~= Seq::empty() && kept == 0,
            }
        }),
    decreases events.len(),
{
    if events.len() > 0 {
        let before = events.drop_last();
        lemma_session_state(before);
        let earlier = session_run(before);
        let outcome = session_run(events);
        let (state, action) = session_next(earlier.state, events.last());
        assert(outcome.actions == earlier.actions.push(action));
        assert(outcome.actions.drop_last() =~= earlier.actions);
    }
}

/// Every hook that was installed is removed before the session returns, and is
/// no longer the stored one by then.
pub proof fn law_installed_hooks_are_removed<E>(events: Seq<SessionEvent<E>>)
    requires
        session_run(events).valid,
        session_run(events).state is Finished,
    ensures
        removed(session_run(events).actions) == installed(events),
        stored(session_run(events).actions) == 0,
{
    lemma_session_state(events);
}

/// A session fails exactly where its module or its hook could not be had, and
/// with that error.
pub proof fn law_session_fails_with_its_hook<E>(events: Seq<SessionEvent<E>>)
    requires
        session_run(events).valid,
        session_run(events).state is Finished,
    ensures
        events.len() > 0,
        session_run(events).actions.last() == SessionActionModel::<E>::Return(
            match session_error(events.last()) {
                Some(e) => Err(e),
                None => Ok(()),
            },
        ),
{
    lemma_session_state(events);
}

/// Messages are pumped only while the installed hook is the stored one.
pub proof fn law_hook_is_stored_while_messages_are_pumped<E>(events: Seq<SessionEvent<E>>)
    requires
        session_run(events).valid,
        session_run(events).state is Pumping || session_run(events).state is Dispatching,
    ensures
        installed(events) == seq![stored(session_run(events).actions)],
        !is_invalid_hook(stored(session_run(events).actions)),
{
    lemma_session_state(events);
    lemma_installed_is_valid(events);
    assert(installed(events)[0] == stored(session_run(events).actions));
}

proof fn lemma_installed_is_valid<E>(events: Seq<SessionEvent<E>>)
    ensures
        forall|i: int|
            0 <= i < installed(events).len() ==> !is_invalid_hook(#[trigger] installed(events)[i]),
    decreases events.len(),
{
    if events.len() > 0 {
        let before = installed(events.drop_last());
        lemma_installed_is_valid(events.drop_last());
        assert forall|i: int| 0 <= i < installed(events).len() implies !is_invalid_hook(
            #[trigger] installed(events)[i],
        ) by {
            if i < before.len() {
                assert(installed(events)[i] == before[i]);
            }
        }
    }
}

/// What was asked for last, going by the state.
proof fn lemma_session_asked<E>(events: Seq<SessionEvent<E>>)
    requires
        session_run(events).valid,
    ensures
        ({
            let outcome = session_run(events);
            let asked = outcome.actions.last();
            let n = events.len();
            let up = |hook: usize| n > 3 && events[3] == SessionEvent::<E>::Hook(Ok(hook));
            match outcome.state {
                SessionState::Ready => n == 0,
                SessionState::Spawning => asked is StartWorker && n == 1,
                SessionState::FindingModule => asked is ModuleHandle && n == 2,
                SessionState::Installing => asked is InstallHook && n == 3,
                SessionState::Complaining => asked is PrintError,
                SessionState::Remembering { hook } => asked == SessionActionModel::<E>::StoreHook(
                    hook,
                ) && hook != 0 && up(hook),
                SessionState::Greeting { hook } => asked is Print && up(hook),
                SessionState::Pumping { hook } => asked is NextMessage && up(hook),
                SessionState::Dispatching { hook } => asked is Dispatch && up(hook),
                SessionState::Forgetting { hook } => asked == SessionActionModel::<E>::StoreHook(0)
                    && up(hook),
                SessionState::Removing => asked is RemoveHook,
                SessionState::Finished => asked is Return,
            }
        }),
    decreases events.len(),
{
    if events.len() > 0 {
        let before = events.drop_last();
        lemma_session_asked(before);
        let earlier = session_run(before);
        let outcome = session_run(events);
        let (state, action) = session_next(earlier.state, events.last());
        assert(outcome.actions == earlier.actions.push(action));
        assert(forall|i: int| 0 <= i < before.len() ==> #[trigger] events[i] == before[i]);
        assert(events[events.len() - 1] == events.last());
    }
}

/// What each reply leads to, in every run. The worker is started before
/// anything else. The hook is a low-level mouse hook of the program's own
/// module, for all threads; every handle that is neither 0 nor has all bits set
/// is stored, and the greeting follows. Every message that does not stop the
/// pump is handled, and the next one is waited for. At the end no hook is
/// stored, and the one that was installed is removed.
pub proof fn law_session_goes_step_by_step<E>(events: Seq<SessionEvent<E>>)
    requires
        session_run(events).valid,
        events.len() > 0,
    ensures
        ({
            let asked = session_run(events.drop_last()).actions.last();
            let action = session_run(events).actions.last();
            match events.last() {
                SessionEvent::Start => events.len() == 1 && action
                    == (SessionActionModel::<E>::StartWorker {
                    name: "uia-worker"@,
                    stack_bytes: WORKER_STACK_BYTES,
                }),
                SessionEvent::Module(Ok(module)) => action
                    == (SessionActionModel::<E>::InstallHook {
                    kind: WH_MOUSE_LL,
                    module,
                    thread: ALL_THREADS,
                }),
                SessionEvent::Module(Err(e)) => action == SessionActionModel::<E>::Return(Err(e)),
                SessionEvent::Hook(Ok(hook)) => if hook == 0 || hook == usize::MAX {
                    action == SessionActionModel::<E>::PrintError(complaint())
                } else {
                    action == SessionActionModel::<E>::StoreHook(hook)
                },
                SessionEvent::Hook(Err(e)) => action == SessionActionModel::<E>::Return(Err(e)),
                SessionEvent::Message(message) => if message != 0 {
                    action is Dispatch
                } else {
                    action == SessionActionModel::<E>::StoreHook(0)
                },
                SessionEvent::Done => match asked {
                    SessionAction::StartWorker { .. } => action is ModuleHandle,
                    SessionAction::PrintError(_) => action == SessionActionModel::<E>::Return(
                        Ok(()),
                    ),
                    SessionAction::StoreHook(hook) => if hook != 0 {
                        action == SessionActionModel::<E>::Print(greeting())
                    } else {
                        events[3] matches SessionEvent::Hook(Ok(up)) && action
                            == SessionActionModel::<E>::RemoveHook(up)
                    },
                    SessionAction::RemoveHook(_) => action == SessionActionModel::<E>::Return(
                        Ok(()),
                    ),
                    _ => (asked is Print || asked is Dispatch) && action
                        == (SessionActionModel::<E>::NextMessage {
                        window: None,
                        first: 0,
                        last: 0,
                    }),
                },
            }
        }),
{
    let before = events.drop_last();
    lemma_session_asked(before);
    assert(forall|i: int| 0 <= i < before.len() ==> #[trigger] events[i] == before[i]);
    let earlier = session_run(before);
    let outcome = session_run(events);
    let (state, action) = session_next(earlier.state, events.last());
    assert(outcome.actions == earlier.actions.push(action));
    assert(outcome.actions.last() == action);
}

/// The session takes every reply to what it asked for last, and nothing else.
/// Once it has returned it takes nothing any more.
pub proof fn law_session_takes_every_reply<E>(
    events: Seq<SessionEvent<E>>,
    event: SessionEvent<E>,
)
    requires
        session_run(events).valid,
    ensures
        session_run(events.push(event)).valid <==> if events.len() == 0 {
            event is Start
        } else {
            match session_run(events).actions.last() {
                SessionAction::ModuleHandle => event is Module,
                SessionAction::InstallHook { .. } => event is Hook,
                SessionAction::NextMessage { .. } => event is Message,
                SessionAction::Return(_) => false,
                _ => event is Done,
            }
        },
{
    lemma_session_asked(events);
    assert(events.push(event).drop_last() =~= events);
}

/// The model of a request leaves nothing of it out: lines and names are seen
/// character by character, and everything else as it is.
pub proof fn law_sessions_are_seen_whole<E>(action: SessionAction<E, Vec<String>, String>)
    ensures
        match action {
            SessionAction::StartWorker { name, stack_bytes } => action@ == (SessionActionModel::<
                E,
            >::StartWorker { name: name@, stack_bytes }),
            SessionAction::ModuleHandle => action@ is ModuleHandle,
            SessionAction::InstallHook { kind, module, thread } => action@
                == (SessionActionModel::<E>::InstallHook { kind, module, thread }),
            SessionAction::StoreHook(hook) => action@ == SessionActionModel::<E>::StoreHook(hook),
            SessionAction::Print(printed) => {
                &&& action@ is Print
                &&& action@->Print_0.len() == printed@.len()
                &&& forall|i: int|
                    0 <= i < printed@.len() ==> #[trigger] action@->Print_0[i] == printed@[i]@
            },
            SessionAction::PrintError(printed) => {
                &&& action@ is PrintError
                &&& action@->PrintError_0.len() == printed@.len()
                &&& forall|i: int|
                    0 <= i < printed@.len() ==> #[trigger] action@->PrintError_0[i] == printed@[i]@
            },
            SessionAction::NextMessage { window, first, last } => action@
                == (SessionActionModel::<E>::NextMessage { window, first, last }),
            SessionAction::Dispatch => action@ is Dispatch,
            SessionAction::RemoveHook(hook) => action@ == SessionActionModel::<E>::RemoveHook(hook),
            SessionAction::Return(r) => action@ == SessionActionModel::<E>::Return(r),
        },
{
}

/// A step can be made for every reply that is waited for, and it is the one that
/// the runs are made of.
pub proof fn law_session_is_made_of_steps<E>(
    state: SessionState,
    event: SessionEvent<E>,
    result: (SessionState, SessionAction<E, Vec<String>, String>),
)
    requires
        session_accepts(state, event),
    ensures
        call_requires(run_session::<E>, (state, event)),
        call_ensures(run_session::<E>, (state, event), result) ==> (result.0, result.1@) == session_next(
            state,
            event,
        ),
{
}

} // verus!
