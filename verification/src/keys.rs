//! The keystrokes that copy a selection.

use crate::machine::{run, Run};
use vstd::prelude::*;

verus! {

/// The kind of an input of the keyboard.
pub const INPUT_KEYBOARD: u32 = 1;

/// The control key.
pub const VK_CONTROL: u16 = 0x11;

/// The key of the letter C.
pub const VK_C: u16 = 0x43;

/// The flag of an input that presses a key.
pub const KEY_DOWN: u32 = 0;

/// The flag of an input that releases a key.
pub const KEYEVENTF_KEYUP: u32 = 2;

/// One keyboard input.
#[derive(Clone, Copy, Debug, PartialEq, Eq)]
pub struct KeyInput {
    /// The kind of input that this is.
    pub kind: u32,
    /// The virtual key.
    pub key: u16,
    /// The hardware scan code.
    pub scan: u16,
    /// Whether the key goes down or up.
    pub flags: u32,
    /// The time stamp; 0 lets the system fill it in.
    pub time: u32,
    /// Whatever else goes with the input.
    pub extra_info: usize,
}

/// An input of a key that says nothing but whether it goes down or up.
pub open spec fn key_input(key: u16, flags: u32) -> KeyInput {
    KeyInput { kind: INPUT_KEYBOARD, key, scan: 0, flags, time: 0, extra_info: 0 }
}

/// The inputs of Ctrl+C: control down, C down, C up, control up.
pub open spec fn ctrl_c() -> Seq<KeyInput> {
    seq![
        key_input(VK_CONTROL, KEY_DOWN),
        key_input(VK_C, KEY_DOWN),
        key_input(VK_C, KEYEVENTF_KEYUP),
        key_input(VK_CONTROL, KEYEVENTF_KEYUP),
    ]
}

/// How far the sending of the keystrokes has come.
#[derive(Debug, PartialEq, Eq)]
pub enum SendState {
    /// Nothing has been asked for.
    Ready,
    /// Waiting for the number of inputs that were sent.
    Sending,
    /// Waiting for the error to report.
    Failing,
    /// The result has been returned.
    Finished,
}

/// The replies that the sending of the keystrokes waits for.
#[derive(Debug, PartialEq, Eq)]
pub enum SendEvent<E> {
    /// The sending begins.
    Start,
    /// How many inputs were sent.
    Sent(u32),
    /// The thread's last error.
    ThreadError(E),
}

/// What the sending of the keystrokes asks for. `I` is the type of the inputs.
#[derive(Debug, PartialEq, Eq)]
pub enum SendAction<E, I> {
    /// Send these inputs.
    Send(I),
    /// Get the thread's last error.
    ThreadError,
    /// Return this result.
    Return(Result<(), E>),
}

impl<E> View for SendAction<E, Vec<KeyInput>> {
    type V = SendAction<E, Seq<KeyInput>>;

    open spec fn view(&self) -> SendAction<E, Seq<KeyInput>> {
        match *self {
            SendAction::Send(inputs) => SendAction::Send(inputs@),
            SendAction::ThreadError => SendAction::ThreadError,
            SendAction::Return(r) => SendAction::Return(r),
        }
    }
}

/// Whether an event is one that the state waits for.
pub open spec fn send_accepts<E>(state: SendState, event: SendEvent<E>) -> bool {
    match state {
        SendState::Ready => event is Start,
        SendState::Sending => event is Sent,
        SendState::Failing => event is ThreadError,
        SendState::Finished => false,
    }
}

/// What an event makes of the state, and what is asked for next: the sending
/// succeeds exactly where all of the inputs were sent.
pub open spec fn send_next<E>(state: SendState, event: SendEvent<E>) -> (
    SendState,
    SendAction<E, Seq<KeyInput>>,
) {
    match event {
        SendEvent::Start => (SendState::Sending, SendAction::Send(ctrl_c())),
        SendEvent::Sent(sent) => if sent == ctrl_c().len() {
            (SendState::Finished, SendAction::Return(Ok(())))
        } else {
            (SendState::Failing, SendAction::ThreadError)
        },
        SendEvent::ThreadError(e) => (SendState::Finished, SendAction::Return(Err(e))),
    }
}

/// An input of a key that says nothing but whether it goes down or up.
fn plain_input(key: u16, flags: u32) -> (input: KeyInput)
    ensures
        input == key_input(key, flags),
{
    KeyInput { kind: INPUT_KEYBOARD, key, scan: 0, flags, time: 0, extra_info: 0 }
}

/// The inputs of Ctrl+C.
pub fn ctrl_c_inputs() -> (inputs: Vec<KeyInput>)
    ensures
        inputs@ == ctrl_c(),
{
    let inputs: Vec<KeyInput> = vec![
        plain_input(VK_CONTROL, KEY_DOWN),
        plain_input(VK_C, KEY_DOWN),
        plain_input(VK_C, KEYEVENTF_KEYUP),
        plain_input(VK_CONTROL, KEYEVENTF_KEYUP),
    ];
    assert(inputs@ =~= ctrl_c());
    inputs
}

/// One step of sending Ctrl+C to whatever has the focus.
pub fn send_ctrl_c<E>(state: SendState, event: SendEvent<E>) -> (r: (
    SendState,
    SendAction<E, Vec<KeyInput>>,
))
    requires
        send_accepts(state, event),
    ensures
        (r.0, r.1@) == send_next(state, event),
{
    match event {
        SendEvent::Start => (SendState::Sending, SendAction::Send(ctrl_c_inputs())),
        SendEvent::Sent(sent) => if sent == 4 {
            (SendState::Finished, SendAction::Return(Ok(())))
        } else {
            (SendState::Failing, SendAction::ThreadError)
        },
        SendEvent::ThreadError(e) => (SendState::Finished, SendAction::Return(Err(e))),
    }
}

/// The run of the sending over a sequence of events.
pub open spec fn send_run<E>(events: Seq<SendEvent<E>>) -> Run<
    SendState,
    SendAction<E, Seq<KeyInput>>,
> {
    run(
        SendState::Ready,
        |s: SendState, e: SendEvent<E>| send_accepts(s, e),
        |s: SendState, e: SendEvent<E>| send_next(s, e),
        events,
    )
}

/// What is known of the state after any events that the machine waited for.
proof fn lemma_send_state<E>(events: Seq<SendEvent<E>>)
    requires
        send_run(events).valid,
    ensures
        ({
            let outcome = send_run(events);
            match outcome.state {
                SendState::Ready => events.len() == 0,
                SendState::Sending => events.len() == 1,
                SendState::Failing => events.len() == 2 && events[1] is Sent && events[1]->Sent_0
                    != ctrl_c().len(),
                SendState::Finished => {
                    &&& events.len() >= 2
                    &&& events[1] is Sent
                    &&& if events[1]->Sent_0 == ctrl_c().len() {
                        outcome.actions.last() == SendAction::<E, Seq<KeyInput>>::Return(Ok(()))
                    } else {
                        events.last() is ThreadError && outcome.actions.last() == SendAction::<
                            E,
                            Seq<KeyInput>,
                        >::Return(Err(events.last()->ThreadError_0))
                    }
                },
            }
        }),
    decreases events.len(),
{
    if events.len() > 0 {
        let before = events.drop_last();
        lemma_send_state(before);
        let earlier = send_run(before);
        let outcome = send_run(events);
        let (state, action) = send_next(earlier.state, events.last());
        assert(outcome.actions == earlier.actions.push(action));
        assert(outcome.actions.last() == action);
    }
}

/// The sending succeeds exactly where all of the inputs were sent; otherwise
/// the result is the thread's last error.
pub proof fn law_sending_succeeds_with_every_input<E>(events: Seq<SendEvent<E>>)
    requires
        send_run(events).valid,
        send_run(events).state is Finished,
    ensures
        events.len() >= 2,
        events[1] is Sent,
        events[1]->Sent_0 == ctrl_c().len() ==> send_run(events).actions.last() == SendAction::<
            E,
            Seq<KeyInput>,
        >::Return(Ok(())),
        events[1]->Sent_0 != ctrl_c().len() ==> events.last() is ThreadError && send_run(
            events,
        ).actions.last() == SendAction::<E, Seq<KeyInput>>::Return(
            Err(events.last()->ThreadError_0),
        ),
{
    lemma_send_state(events);
}

/// The keys that are down after some inputs, in the order in which they went
/// down. Only the key that went down last can come up.
pub open spec fn keys_down(inputs: Seq<KeyInput>) -> Option<Seq<u16>>
    decreases inputs.len(),
{
    if inputs.len() == 0 {
        Some(Seq::empty())
    } else {
        let input = inputs.last();
        match keys_down(inputs.drop_last()) {
            None => None,
            Some(down) => if input.flags == KEY_DOWN {
                Some(down.push(input.key))
            } else if down.len() > 0 && down.last() == input.key {
                Some(down.drop_last())
            } else {
                None
            },
        }
    }
}

/// C goes down while control alone is held, and no key stays down: each comes
/// up again, the last one first.
pub proof fn law_no_key_stays_down()
    ensures
        keys_down(ctrl_c().take(2)) == Some(seq![VK_CONTROL, VK_C]),
        keys_down(ctrl_c()) == Some(Seq::<u16>::empty()),
{
    let all = ctrl_c();
    assert(all.take(0) =~= Seq::empty());
    assert(all.take(1).drop_last() =~= all.take(0));
    assert(all.take(2).drop_last() =~= all.take(1));
    assert(all.take(3).drop_last() =~= all.take(2));
    assert(all.drop_last() =~= all.take(3));
    let empty = Seq::<u16>::empty();
    assert(keys_down(all.take(0)) == Some(empty));
    assert(keys_down(all.take(1)) == Some(empty.push(VK_CONTROL)));
    assert(keys_down(all.take(2)) == Some(empty.push(VK_CONTROL).push(VK_C)));
    assert(empty.push(VK_CONTROL).push(VK_C) =~= seq![VK_CONTROL, VK_C]);
    assert(empty.push(VK_CONTROL).push(VK_C).drop_last() =~= empty.push(VK_CONTROL));
    assert(keys_down(all.take(3)) == Some(empty.push(VK_CONTROL)));
    assert(empty.push(VK_CONTROL).drop_last() =~= empty);
}

/// What each reply leads to, in every run. The inputs that are sent are those
/// of the keyboard, in one go: control goes down, C goes down, C comes up,
/// control comes up, and nothing else is said of them. Where all of them were
/// sent the sending has succeeded; where any other number was, the thread's
/// last error is asked for and returned.
pub proof fn law_sending_goes_step_by_step<E>(events: Seq<SendEvent<E>>)
    requires
        send_run(events).valid,
        events.len() > 0,
    ensures
        ({
            let action = send_run(events).actions.last();
            match events.last() {
                SendEvent::Start => {
                    &&& events.len() == 1
                    &&& action is Send
                    &&& action->Send_0.len() == 4
                    &&& forall|i: int|
                        0 <= i < 4 ==> {
                            let input = #[trigger] action->Send_0[i];
                            &&& input.kind == INPUT_KEYBOARD
                            &&& input.key == if i == 0 || i == 3 {
                                VK_CONTROL
                            } else {
                                VK_C
                            }
                            &&& input.flags == if i < 2 {
                                KEY_DOWN
                            } else {
                                KEYEVENTF_KEYUP
                            }
                            &&& input.scan == 0 && input.time == 0 && input.extra_info == 0
                        }
                },
                SendEvent::Sent(sent) => if sent == 4 {
                    action == SendAction::<E, Seq<KeyInput>>::Return(Ok(()))
                } else {
                    action is ThreadError
                },
                SendEvent::ThreadError(e) => action == SendAction::<E, Seq<KeyInput>>::Return(
                    Err(e),
                ),
            }
        }),
{
    let before = events.drop_last();
    lemma_send_state(before);
    let earlier = send_run(before);
    let outcome = send_run(events);
    let (state, action) = send_next(earlier.state, events.last());
    assert(outcome.actions == earlier.actions.push(action));
    assert(outcome.actions.last() == action);
}

/// What was asked for last, going by the state.
proof fn lemma_send_asked<E>(events: Seq<SendEvent<E>>)
    requires
        send_run(events).valid,
    ensures
        match send_run(events).state {
            SendState::Ready => events.len() == 0,
            SendState::Sending => send_run(events).actions.last() is Send,
            SendState::Failing => send_run(events).actions.last() is ThreadError,
            SendState::Finished => send_run(events).actions.last() is Return,
        },
    decreases events.len(),
{
    if events.len() > 0 {
        let before = events.drop_last();
        lemma_send_asked(before);
        let earlier = send_run(before);
        let outcome = send_run(events);
        let (state, action) = send_next(earlier.state, events.last());
        assert(outcome.actions == earlier.actions.push(action));
    }
}

/// The sending takes every reply to what it asked for last, and nothing else.
/// Once it has returned it takes nothing any more.
pub proof fn law_sending_takes_every_reply<E>(events: Seq<SendEvent<E>>, event: SendEvent<E>)
    requires
        send_run(events).valid,
    ensures
        send_run(events.push(event)).valid <==> if events.len() == 0 {
            event is Start
        } else {
            match send_run(events).actions.last() {
                SendAction::Send(_) => event is Sent,
                SendAction::ThreadError => event is ThreadError,
                SendAction::Return(_) => false,
            }
        },
{
    lemma_send_asked(events);
    assert(events.push(event).drop_last() =~= events);
}

/// The model of a request leaves nothing of it out: the inputs are seen one by
/// one, and everything else as it is.
pub proof fn law_sendings_are_seen_whole<E>(action: SendAction<E, Vec<KeyInput>>)
    ensures
        match action {
            SendAction::Send(inputs) => action@ == SendAction::<E, Seq<KeyInput>>::Send(inputs@),
            SendAction::ThreadError => action@ is ThreadError,
            SendAction::Return(r) => action@ == SendAction::<E, Seq<KeyInput>>::Return(r),
        },
{
}

/// A step can be made for every reply that is waited for, and it is the one that
/// the runs are made of.
pub proof fn law_sending_is_made_of_steps<E>(
    state: SendState,
    event: SendEvent<E>,
    result: (SendState, SendAction<E, Vec<KeyInput>>),
)
    requires
        send_accepts(state, event),
    ensures
        call_requires(send_ctrl_c::<E>, (state, event)),
        call_ensures(send_ctrl_c::<E>, (state, event), result) ==> (result.0, result.1@) == send_next(
            state,
            event,
        ),
{
}

} // verus!
