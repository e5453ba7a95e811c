//! The left mouse button: which messages mark a press, and which release ends
//! a press that was long enough to have selected something.

use crate::machine::{lemma_run_len, run, Run};
use vstd::prelude::*;

verus! {

/// The message that reports that the left button went down.
pub const WM_LBUTTONDOWN: u32 = 0x0201;

/// The message that reports that the left button came up.
pub const WM_LBUTTONUP: u32 = 0x0202;

/// How long the button has to be held, in milliseconds. A shorter press is an
/// ordinary click.
pub const SELECTION_THRESHOLD_MS: u64 = 200;

/// What the hook remembers between two messages.
#[derive(Clone, Copy, Debug, PartialEq, Eq)]
pub struct HookState {
    /// When the button went down, in milliseconds since the epoch; 0 while it
    /// is up.
    pub down_time: u64,
    /// The handle of the installed hook; 0 while there is none.
    pub hook: usize,
}

/// One call of the hook.
#[derive(Clone, Copy, Debug, PartialEq, Eq)]
pub struct HookCall {
    /// The hook code. A negative one is only handed on.
    pub code: i32,
    /// The message parameter; the low 32 bits are the message.
    pub wparam: usize,
    /// The address of the details, which are only handed on.
    pub lparam: isize,
    /// The time since the epoch in milliseconds, where the clock is past it and
    /// the call needs it.
    pub clock: Option<u128>,
}

/// What the hook does about a call.
#[derive(Clone, Copy, Debug, PartialEq, Eq)]
pub struct HookReply {
    /// The duration of the press to post to the worker, if any.
    pub post: Option<u64>,
    /// How the call is handed on to the next hook in the chain, whose answer
    /// is the answer to the call.
    pub next: HandOn,
}

/// A call on its way to the next hook in the chain.
#[derive(Clone, Copy, Debug, PartialEq, Eq)]
pub struct HandOn {
    /// The hook that hands it on, where it is known.
    pub hook: Option<usize>,
    pub code: i32,
    pub wparam: usize,
    pub lparam: isize,
}

impl HookCall {
    /// The message of the call.
    pub open spec fn message(self) -> int {
        self.wparam as int % 0x1_0000_0000
    }

    /// The time of the call: the low 64 bits of the clock, or 0 where the
    /// clock stands before the epoch.
    pub open spec fn time(self) -> int {
        match self.clock {
            Some(ms) => ms as int % 0x1_0000_0000_0000_0000,
            None => 0,
        }
    }

    /// Whether the call reports a press.
    pub open spec fn is_press(self) -> bool {
        self.code >= 0 && self.message() == WM_LBUTTONDOWN
    }

    /// Whether the call reports a release.
    pub open spec fn is_release(self) -> bool {
        self.code >= 0 && self.message() == WM_LBUTTONUP
    }
}

/// How long a press took, going by the clock; 0 where the clock went back.
pub open spec fn held(start: int, end: int) -> int {
    if end >= start {
        end - start
    } else {
        0
    }
}

/// The duration that a release posts.
pub open spec fn posted(start: int, end: int) -> Option<u64> {
    if start > 0 && held(start, end) >= SELECTION_THRESHOLD_MS {
        Some(held(start, end) as u64)
    } else {
        None
    }
}

/// A call as it is handed on: as it came, by the installed hook.
pub open spec fn handed_on(state: HookState, call: HookCall) -> HandOn {
    HandOn {
        hook: if state.hook == 0 {
            None
        } else {
            Some(state.hook)
        },
        code: call.code,
        wparam: call.wparam,
        lparam: call.lparam,
    }
}

/// What a call makes of the state, and what is done about it.
pub open spec fn hook_next(state: HookState, call: HookCall) -> (HookState, HookReply) {
    let next = handed_on(state, call);
    if call.is_press() {
        (
            HookState { down_time: call.time() as u64, ..state },
            HookReply { post: None, next },
        )
    } else if call.is_release() {
        (
            HookState { down_time: 0, ..state },
            HookReply { post: posted(state.down_time as int, call.time()), next },
        )
    } else {
        (state, HookReply { post: None, next })
    }
}

/// The time in milliseconds since the epoch, in 64 bits.
pub fn epoch_ms(clock: Option<u128>) -> (now: u64)
    ensures
        now == (match clock {
            Some(ms) => ms as int % 0x1_0000_0000_0000_0000,
            None => 0,
        }),
{
    match clock {
        Some(ms) => {
            assert(ms as u64 == ms % 0x1_0000_0000_0000_0000) by (bit_vector);
            #[verifier::truncate]
            let low: u64 = ms as u64;
            low
        },
        None => 0,
    }
}

/// Whether the time of a call matters: at a press, and at a release that ends
/// one.
pub open spec fn clock_needed(state: HookState, call: HookCall) -> bool {
    call.is_press() || (call.is_release() && state.down_time > 0)
}

/// The message that a parameter holds.
fn message_of(wparam: usize) -> (message: u32)
    ensures
        message == wparam as int % 0x1_0000_0000,
{
    let wide: u64 = wparam as u64;
    assert(wide as u32 == wide % 0x1_0000_0000) by (bit_vector);
    #[verifier::truncate]
    let message: u32 = wide as u32;
    message
}

/// Whether the clock has to be read for a call with this code and parameter.
pub fn needs_clock(state: HookState, code: i32, wparam: usize) -> (r: bool)
    ensures
        r <==> code >= 0 && (wparam as int % 0x1_0000_0000 == WM_LBUTTONDOWN || (wparam as int
            % 0x1_0000_0000 == WM_LBUTTONUP && state.down_time > 0)),
        forall|lparam: isize, clock: Option<u128>|
            r == #[trigger] clock_needed(state, HookCall { code, wparam, lparam, clock }),
{
    let message: u32 = message_of(wparam);
    code >= 0 && (message == WM_LBUTTONDOWN || (message == WM_LBUTTONUP && state.down_time > 0))
}

/// Decides what the mouse hook does about one call.
///
/// A press is remembered with its time. A release forgets the press, and posts
/// its duration where there was a press and it took at least
/// [`SELECTION_THRESHOLD_MS`]. Every other message leaves things as they are.
pub fn mouse_hook_proc(state: HookState, call: HookCall) -> (r: (HookState, HookReply))
    ensures
        r == hook_next(state, call),
{
    let hook: Option<usize> = if state.hook == 0 {
        None
    } else {
        Some(state.hook)
    };
    let next = HandOn { hook, code: call.code, wparam: call.wparam, lparam: call.lparam };
    if call.code >= 0 {
        let message: u32 = message_of(call.wparam);
        if message == WM_LBUTTONDOWN {
            let now: u64 = epoch_ms(call.clock);
            return (
                HookState { down_time: now, hook: state.hook },
                HookReply { post: None, next },
            );
        }
        if message == WM_LBUTTONUP {
            let mut post: Option<u64> = None;
            if state.down_time > 0 {
                let now: u64 = epoch_ms(call.clock);
                let duration: u64 = now.saturating_sub(state.down_time);
                if duration >= SELECTION_THRESHOLD_MS {
                    post = Some(duration);
                }
            }
            return (HookState { down_time: 0, hook: state.hook }, HookReply { post, next });
        }
    }
    (state, HookReply { post: None, next })
}

/// The run of the hook over a sequence of calls.
pub open spec fn hook_run(state: HookState, calls: Seq<HookCall>) -> Run<HookState, HookReply> {
    run(state, |s: HookState, c: HookCall| true, |s: HookState, c: HookCall| hook_next(s, c), calls)
}

/// Whether a call reports neither a press nor a release.
pub open spec fn is_other(call: HookCall) -> bool {
    !call.is_press() && !call.is_release()
}

/// Calls that report neither a press nor a release change nothing and post
/// nothing.
pub proof fn law_other_calls_change_nothing(state: HookState, calls: Seq<HookCall>)
    requires
        forall|i: int| 0 <= i < calls.len() ==> is_other(#[trigger] calls[i]),
    ensures
        hook_run(state, calls).state == state,
        hook_run(state, calls).actions.len() == calls.len(),
        forall|i: int|
            0 <= i < calls.len() ==> (#[trigger] hook_run(state, calls).actions[i]).post is None,
    decreases calls.len(),
{
    if calls.len() > 0 {
        let before = calls.drop_last();
        assert forall|i: int| 0 <= i < before.len() implies is_other(#[trigger] before[i]) by {
            assert(is_other(calls[i]));
        }
        law_other_calls_change_nothing(state, before);
        assert(is_other(calls.last()));
        assert forall|i: int| 0 <= i < calls.len() implies (
        #[trigger] hook_run(state, calls).actions[i]).post is None by {
            if i < before.len() {
                assert(hook_run(state, calls).actions[i] == hook_run(state, before).actions[i]);
            }
        }
    }
}

/// A press and the release that ends it, with any other messages between
/// them: the release posts the duration of the press exactly where that is at
/// least the threshold (and the press was stamped later than the epoch), and
/// nothing else posts anything. A click that is too short triggers nothing.
pub proof fn law_press_and_release(
    state: HookState,
    press: HookCall,
    between: Seq<HookCall>,
    release: HookCall,
)
    requires
        press.is_press(),
        release.is_release(),
        forall|i: int| 0 <= i < between.len() ==> is_other(#[trigger] between[i]),
    ensures
        ({
            let calls = seq![press] + between + seq![release];
            let outcome = hook_run(state, calls);
            &&& outcome.state == HookState { down_time: 0, ..state }
            &&& outcome.actions.len() == calls.len()
            &&& forall|i: int|
                0 <= i < calls.len() - 1 ==> (#[trigger] outcome.actions[i]).post is None
            &&& outcome.actions.last().post == posted(press.time(), release.time())
        }),
{
    let calls = seq![press] + between + seq![release];
    let front = seq![press] + between;
    lemma_other_after_press(state, press, between);
    assert(calls.drop_last() =~= front);
    assert(calls.last() == release);
    let outcome = hook_run(state, calls);
    assert(outcome.actions == hook_run(state, front).actions.push(
        hook_next(hook_run(state, front).state, release).1,
    ));
}

proof fn lemma_other_after_press(state: HookState, press: HookCall, between: Seq<HookCall>)
    requires
        press.is_press(),
        forall|i: int| 0 <= i < between.len() ==> is_other(#[trigger] between[i]),
    ensures
        ({
            let outcome = hook_run(state, seq![press] + between);
            &&& outcome.state.down_time == press.time()
            &&& outcome.state.hook == state.hook
            &&& outcome.actions.len() == between.len() + 1
            &&& forall|i: int|
                0 <= i < outcome.actions.len() ==> (#[trigger] outcome.actions[i]).post is None
        }),
    decreases between.len(),
{
    let calls = seq![press] + between;
    if between.len() == 0 {
        assert(calls.drop_last() =~= Seq::empty());
        assert(hook_run(state, calls.drop_last()).state == state);
        assert(calls.last() == press);
    } else {
        let before = between.drop_last();
        assert forall|i: int| 0 <= i < before.len() implies is_other(#[trigger] before[i]) by {
            assert(is_other(between[i]));
        }
        lemma_other_after_press(state, press, before);
        assert(calls.drop_last() =~= seq![press] + before);
        assert(is_other(between.last()));
        assert(calls.last() == between.last());
    }
}

/// Whatever the messages, nothing is posted for less than the threshold, and
/// only a release posts anything.
pub proof fn law_posts_are_long_enough(state: HookState, calls: Seq<HookCall>, i: int)
    requires
        0 <= i < calls.len(),
    ensures
        hook_run(state, calls).actions.len() == calls.len(),
        hook_run(state, calls).actions[i].post matches Some(ms) ==> ms >= SELECTION_THRESHOLD_MS
            && calls[i].is_release(),
    decreases calls.len(),
{
    lemma_run_len(
        state,
        |s: HookState, c: HookCall| true,
        |s: HookState, c: HookCall| hook_next(s, c),
        calls,
    );
    if i < calls.len() - 1 {
        law_posts_are_long_enough(state, calls.drop_last(), i);
        assert(hook_run(state, calls).actions[i] == hook_run(state, calls.drop_last()).actions[i]);
    } else {
        lemma_run_len(
            state,
            |s: HookState, c: HookCall| true,
            |s: HookState, c: HookCall| hook_next(s, c),
            calls.drop_last(),
        );
    }
}

/// While the button is up, calls that report no press post nothing and leave
/// it up.
proof fn lemma_nothing_without_a_press(state: HookState, calls: Seq<HookCall>)
    requires
        state.down_time == 0,
        forall|i: int| 0 <= i < calls.len() ==> !(#[trigger] calls[i]).is_press(),
    ensures
        hook_run(state, calls).state == state,
        hook_run(state, calls).actions.len() == calls.len(),
        forall|i: int|
            0 <= i < calls.len() ==> (#[trigger] hook_run(state, calls).actions[i]).post is None,
    decreases calls.len(),
{
    if calls.len() > 0 {
        let before = calls.drop_last();
        assert forall|i: int| 0 <= i < before.len() implies !(#[trigger] before[i]).is_press() by {
            assert(!calls[i].is_press());
        }
        lemma_nothing_without_a_press(state, before);
        assert(!calls[calls.len() - 1].is_press());
        assert forall|i: int| 0 <= i < calls.len() implies (
        #[trigger] hook_run(state, calls).actions[i]).post is None by {
            if i < before.len() {
                assert(hook_run(state, calls).actions[i] == hook_run(state, before).actions[i]);
            }
        }
    }
}

/// One press posts at most once: after a release, nothing is posted until the
/// next press, whatever other messages and further releases come before it.
pub proof fn law_second_release_posts_nothing(
    state: HookState,
    first: HookCall,
    later: Seq<HookCall>,
)
    requires
        first.is_release(),
        forall|i: int| 0 <= i < later.len() ==> !(#[trigger] later[i]).is_press(),
    ensures
        ({
            let outcome = hook_run(hook_next(state, first).0, later);
            &&& outcome.state.down_time == 0
            &&& outcome.actions.len() == later.len()
            &&& forall|i: int|
                0 <= i < later.len() ==> (#[trigger] outcome.actions[i]).post is None
        }),
{
    lemma_nothing_without_a_press(hook_next(state, first).0, later);
}

/// What the hook does about a call depends on the clock only where
/// [`needs_clock`] says so.
pub proof fn law_clock_matters_only_where_it_is_needed(
    state: HookState,
    call: HookCall,
    clock: Option<u128>,
)
    requires
        !clock_needed(state, call),
    ensures
        hook_next(state, call) == hook_next(state, HookCall { clock, ..call }),
{
}

/// Every call is handed on as it came, by the installed hook where there is
/// one, and no call changes which hook that is.
pub proof fn law_calls_are_handed_on(state: HookState, call: HookCall)
    ensures
        hook_next(state, call).0.hook == state.hook,
        hook_next(state, call).1.next == (HandOn {
            hook: if state.hook == 0 {
                None
            } else {
                Some(state.hook)
            },
            code: call.code,
            wparam: call.wparam,
            lparam: call.lparam,
        }),
{
}

/// The stamp that a clock gives: its low 64 bits, or 0 before the epoch.
pub open spec fn stamp(clock: Option<u128>) -> int {
    match clock {
        Some(ms) => ms as int % 0x1_0000_0000_0000_0000,
        None => 0,
    }
}

/// The stamp of the press that some calls leave pending, where `earlier` was
/// pending before them; 0 where none is. A press takes the place of an earlier
/// one, and a release ends it.
pub open spec fn pending_press(earlier: int, calls: Seq<HookCall>) -> int
    decreases calls.len(),
{
    if calls.len() == 0 {
        earlier
    } else {
        let call = calls.last();
        let message = call.wparam as int % 0x1_0000_0000;
        if call.code >= 0 && message == WM_LBUTTONDOWN {
            stamp(call.clock)
        } else if call.code >= 0 && message == WM_LBUTTONUP {
            0
        } else {
            pending_press(earlier, calls.drop_last())
        }
    }
}

/// What each call leads to, after any calls. A release posts exactly where a
/// press is pending and lies back at least the threshold, and what it posts is
/// how long it lies back, however long that is. No other call posts anything.
/// What is remembered is the pending press.
pub proof fn law_hook_goes_call_by_call(state: HookState, calls: Seq<HookCall>, call: HookCall)
    ensures
        ({
            let outcome = hook_run(state, calls.push(call));
            let reply = outcome.actions.last();
            let start = pending_press(state.down_time as int, calls);
            let end = stamp(call.clock);
            let message = call.wparam as int % 0x1_0000_0000;
            &&& outcome.actions.len() == calls.len() + 1
            &&& if call.code >= 0 && message == WM_LBUTTONUP && start > 0 && end - start
                >= SELECTION_THRESHOLD_MS {
                reply.post is Some && reply.post->0 == end - start
            } else {
                reply.post is None
            }
            &&& reply.next.hook == if state.hook == 0 {
                None
            } else {
                Some(state.hook)
            }
            &&& reply.next.code == call.code
            &&& reply.next.wparam == call.wparam
            &&& reply.next.lparam == call.lparam
            &&& outcome.state.down_time == pending_press(state.down_time as int, calls.push(call))
            &&& outcome.state.hook == state.hook
        }),
    decreases calls.len(),
{
    let all = calls.push(call);
    assert(all.drop_last() =~= calls);
    assert(all.last() == call);
    if calls.len() > 0 {
        law_hook_goes_call_by_call(state, calls.drop_last(), calls.last());
        assert(calls.drop_last().push(calls.last()) =~= calls);
    } else {
        assert(hook_run(state, calls).state == state);
        assert(hook_run(state, calls).actions =~= Seq::empty());
    }
    let before = hook_run(state, calls);
    let reply = hook_next(before.state, call).1;
    assert(hook_run(state, all).actions == before.actions.push(reply));
    assert(hook_run(state, all).actions.last() == reply);
    assert(0 <= stamp(call.clock) <= u64::MAX);
    assert(before.state.down_time == pending_press(state.down_time as int, calls));
    assert(before.actions.len() == calls.len());
}

/// A press and the release that ends it, with anything but a press or a release
/// between them: where the button was held for at least the threshold, the
/// release posts for how long, no matter how long that was; where it was held
/// for less, or the clock went back, it posts nothing. Nothing else posts.
pub proof fn law_every_long_press_is_posted(
    state: HookState,
    press: HookCall,
    between: Seq<HookCall>,
    release: HookCall,
    start: u64,
    end: u64,
)
    requires
        press.code >= 0,
        press.wparam as int % 0x1_0000_0000 == WM_LBUTTONDOWN,
        press.clock == Some(start as u128),
        start > 0,
        forall|i: int|
            0 <= i < between.len() ==> {
                let message = (#[trigger] between[i]).wparam as int % 0x1_0000_0000;
                between[i].code < 0 || (message != WM_LBUTTONDOWN && message != WM_LBUTTONUP)
            },
        release.code >= 0,
        release.wparam as int % 0x1_0000_0000 == WM_LBUTTONUP,
        release.clock == Some(end as u128),
    ensures
        ({
            let outcome = hook_run(state, seq![press] + between + seq![release]);
            &&& outcome.actions.len() == between.len() + 2
            &&& forall|i: int|
                0 <= i <= between.len() ==> (#[trigger] outcome.actions[i]).post is None
            &&& end - start >= SELECTION_THRESHOLD_MS ==> outcome.actions.last().post == Some(
                (end - start) as u64,
            )
            &&& end - start < SELECTION_THRESHOLD_MS ==> outcome.actions.last().post is None
        }),
{
    law_press_and_release(state, press, between, release);
}

/// The clock is read at every press, at every release while a press is pending,
/// and at no other call.
pub proof fn law_clock_is_read_for_presses(
    state: HookState,
    code: i32,
    wparam: usize,
    needed: bool,
)
    requires
        call_ensures(needs_clock, (state, code, wparam), needed),
    ensures
        needed <==> code >= 0 && ({
            let message = wparam as int % 0x1_0000_0000;
            message == WM_LBUTTONDOWN || (message == WM_LBUTTONUP && state.down_time > 0)
        }),
{
}

/// Every call can be handled in every state, by the step that the runs are made
/// of.
pub proof fn law_hook_is_made_of_calls(
    state: HookState,
    call: HookCall,
    result: (HookState, HookReply),
)
    ensures
        call_requires(mouse_hook_proc, (state, call)),
        call_ensures(mouse_hook_proc, (state, call), result) ==> result == hook_next(state, call),
{
}

/// The time in milliseconds is that of the clock, in 64 bits, and 0 where the
/// clock stands before the epoch.
pub proof fn law_time_is_that_of_the_clock(clock: Option<u128>, now: u64)
    requires
        call_ensures(epoch_ms, (clock,), now),
    ensures
        clock matches Some(ms) ==> now == ms as int % 0x1_0000_0000_0000_0000,
        clock is None ==> now == 0,
{
}

} // verus!
