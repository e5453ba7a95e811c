//! Getting at a selection by copying it, and leaving the clipboard as it was.

use crate::clipboard_text::{
    law_clipboard_text_is_what_was_read, read_error, read_run, units_read, ReadAction, ReadEvent,
};
use crate::machine::{run, Run};
use crate::snapshot::{
    capture_run, clipboard_work, duplicates, law_restore_puts_the_snapshot_back,
    law_snapshot_holds_what_was_duplicated, puts, restore_run, was_opened, CaptureAction,
    CaptureEvent, ClipboardSnapshot, RestoreAction, RestoreEvent,
};
use crate::text::{text_or_empty, text_result};
use crate::utf16::utf16_lossy;
use vstd::prelude::*;

verus! {

/// How often the clipboard is looked at for a sign of the copy.
pub const COPY_POLLS: u32 = 30;

/// How long to wait before the clipboard is looked at again, in milliseconds.
pub const COPY_POLL_MS: u64 = 10;

/// How far the copying has come. `S` is the type of the snapshot, and `T` that
/// of the text.
#[derive(Debug, PartialEq, Eq)]
pub enum CopyState<S, T> {
    /// Nothing has been asked for.
    Ready,
    /// Waiting for a snapshot of the clipboard.
    Capturing,
    /// Waiting for the sequence number before the copy.
    Numbering { snapshot: S },
    /// Waiting for the keystrokes to be sent.
    Sending { snapshot: S, number: u32 },
    /// Waiting for the sequence number after the copy, for the given time.
    Polling { snapshot: S, number: u32, poll: u32 },
    /// Waiting a little before the next look at the sequence number.
    Pausing { snapshot: S, number: u32, poll: u32 },
    /// Waiting for the text that was copied.
    Reading { snapshot: S },
    /// Waiting for the snapshot to be put back.
    Restoring { text: T },
    /// The result has been returned.
    Finished,
}

/// The replies that the copying waits for.
#[derive(Debug, PartialEq, Eq)]
pub enum CopyEvent<E, S, T> {
    /// The copying begins.
    Start,
    /// A snapshot of the clipboard.
    Captured(Result<S, E>),
    /// The clipboard's sequence number.
    Number(u32),
    /// Whether the keystrokes were sent.
    Sent(Result<(), E>),
    /// The wait is over.
    Slept,
    /// The text on the clipboard.
    Text(Result<T, E>),
    /// The snapshot has been put back, as far as that went.
    Restored,
}

/// What the copying asks for.
#[derive(Debug, PartialEq, Eq)]
pub enum CopyAction<E, S, T> {
    /// Take a snapshot of the clipboard.
    Capture,
    /// Get the clipboard's sequence number.
    Number,
    /// Send the keystrokes that copy the selection.
    Send,
    /// Wait for this many milliseconds.
    Sleep(u64),
    /// Read the text on the clipboard.
    Read,
    /// Put this snapshot back on the clipboard.
    Restore(S),
    /// Return this result.
    Return(Result<T, E>),
}

/// The states with the snapshot and the text taken by their views.
pub type CopyModel = CopyState<Seq<(u32, usize)>, Seq<char>>;

/// The events with the snapshot and the text taken by their views.
pub type CopyEventModel<E> = CopyEvent<E, Seq<(u32, usize)>, Seq<char>>;

/// The actions with the snapshot and the text taken by their views.
pub type CopyActionModel<E> = CopyAction<E, Seq<(u32, usize)>, Seq<char>>;

impl View for CopyState<ClipboardSnapshot, String> {
    type V = CopyModel;

    open spec fn view(&self) -> CopyModel {
        match *self {
            CopyState::Ready => CopyState::Ready,
            CopyState::Capturing => CopyState::Capturing,
            CopyState::Numbering { snapshot } => CopyState::Numbering { snapshot: snapshot@ },
            CopyState::Sending { snapshot, number } => CopyState::Sending {
                snapshot: snapshot@,
                number,
            },
            CopyState::Polling { snapshot, number, poll } => CopyState::Polling {
                snapshot: snapshot@,
                number,
                poll,
            },
            CopyState::Pausing { snapshot, number, poll } => CopyState::Pausing {
                snapshot: snapshot@,
                number,
                poll,
            },
            CopyState::Reading { snapshot } => CopyState::Reading { snapshot: snapshot@ },
            CopyState::Restoring { text } => CopyState::Restoring { text: text@ },
            CopyState::Finished => CopyState::Finished,
        }
    }
}

impl<E> View for CopyEvent<E, ClipboardSnapshot, String> {
    type V = CopyEventModel<E>;

    open spec fn view(&self) -> CopyEventModel<E> {
        match *self {
            CopyEvent::Start => CopyEvent::Start,
            CopyEvent::Captured(Ok(snapshot)) => CopyEvent::Captured(Ok(snapshot@)),
            CopyEvent::Captured(Err(e)) => CopyEvent::Captured(Err(e)),
            CopyEvent::Number(number) => CopyEvent::Number(number),
            CopyEvent::Sent(r) => CopyEvent::Sent(r),
            CopyEvent::Slept => CopyEvent::Slept,
            CopyEvent::Text(r) => CopyEvent::Text(text_result(r)),
            CopyEvent::Restored => CopyEvent::Restored,
        }
    }
}

impl<E> View for CopyAction<E, ClipboardSnapshot, String> {
    type V = CopyActionModel<E>;

    open spec fn view(&self) -> CopyActionModel<E> {
        match *self {
            CopyAction::Capture => CopyAction::Capture,
            CopyAction::Number => CopyAction::Number,
            CopyAction::Send => CopyAction::Send,
            CopyAction::Sleep(ms) => CopyAction::Sleep(ms),
            CopyAction::Read => CopyAction::Read,
            CopyAction::Restore(snapshot) => CopyAction::Restore(snapshot@),
            CopyAction::Return(r) => CopyAction::Return(text_result(r)),
        }
    }
}

/// Whether an event is one that the state waits for.
pub open spec fn copy_accepts<E>(state: CopyModel, event: CopyEventModel<E>) -> bool {
    match state {
        CopyState::Ready => event is Start,
        CopyState::Capturing => event is Captured,
        CopyState::Numbering { snapshot } => event is Number,
        CopyState::Sending { snapshot, number } => event is Sent,
        CopyState::Polling { snapshot, number, poll } => poll <= COPY_POLLS && event is Number,
        CopyState::Pausing { snapshot, number, poll } => poll <= COPY_POLLS && event is Slept,
        CopyState::Reading { snapshot } => event is Text,
        CopyState::Restoring { text } => event is Restored,
        CopyState::Finished => false,
    }
}

/// What an event makes of the state, and what is asked for next.
///
/// Without a snapshot nothing is copied, and the result is empty. Once the
/// keystrokes are sent, the clipboard is looked at until its sequence number
/// changes, or often enough; the text on it is read, and the snapshot is put
/// back whether or not there was any text.
pub open spec fn copy_next<E>(state: CopyModel, event: CopyEventModel<E>) -> (
    CopyModel,
    CopyActionModel<E>,
) {
    match state {
        CopyState::Ready => (CopyState::Capturing, CopyAction::Capture),
        CopyState::Capturing => match event->Captured_0 {
            Ok(snapshot) => (CopyState::Numbering { snapshot }, CopyAction::Number),
            Err(_) => (CopyState::Finished, CopyAction::Return(Ok(Seq::empty()))),
        },
        CopyState::Numbering { snapshot } => (
            CopyState::Sending { snapshot, number: event->Number_0 },
            CopyAction::Send,
        ),
        CopyState::Sending { snapshot, number } => match event->Sent_0 {
            Ok(_) => (CopyState::Polling { snapshot, number, poll: 1 }, CopyAction::Number),
            Err(e) => (CopyState::Finished, CopyAction::Return(Err(e))),
        },
        CopyState::Polling { snapshot, number, poll } => if event->Number_0 != number {
            (CopyState::Reading { snapshot }, CopyAction::Read)
        } else {
            (CopyState::Pausing { snapshot, number, poll }, CopyAction::Sleep(COPY_POLL_MS))
        },
        CopyState::Pausing { snapshot, number, poll } => if poll < COPY_POLLS {
            (
                CopyState::Polling { snapshot, number, poll: (poll + 1) as u32 },
                CopyAction::Number,
            )
        } else {
            (CopyState::Reading { snapshot }, CopyAction::Read)
        },
        CopyState::Reading { snapshot } => (
            CopyState::Restoring { text: text_or_empty(event->Text_0) },
            CopyAction::Restore(snapshot),
        ),
        CopyState::Restoring { text } => (CopyState::Finished, CopyAction::Return(Ok(text))),
        CopyState::Finished => (state, CopyAction::Return(Ok(Seq::empty()))),
    }
}

/// One step of copying the selection while preserving the clipboard.
pub fn get_selection_via_copy_preserving_clipboard<E>(
    state: CopyState<ClipboardSnapshot, String>,
    event: CopyEvent<E, ClipboardSnapshot, String>,
) -> (r: (CopyState<ClipboardSnapshot, String>, CopyAction<E, ClipboardSnapshot, String>))
    requires
        copy_accepts(state@, event@),
    ensures
        (r.0@, r.1@) == copy_next(state@, event@),
{
    match (state, event) {
        (CopyState::Ready, _) => (CopyState::Capturing, CopyAction::Capture),
        (CopyState::Capturing, CopyEvent::Captured(Ok(snapshot))) => (
            CopyState::Numbering { snapshot },
            CopyAction::Number,
        ),
        (CopyState::Capturing, CopyEvent::Captured(Err(_))) => (
            CopyState::Finished,
            CopyAction::Return(Ok(String::new())),
        ),
        (CopyState::Numbering { snapshot }, CopyEvent::Number(number)) => (
            CopyState::Sending { snapshot, number },
            CopyAction::Send,
        ),
        (CopyState::Sending { snapshot, number }, CopyEvent::Sent(Ok(()))) => (
            CopyState::Polling { snapshot, number, poll: 1 },
            CopyAction::Number,
        ),
        (CopyState::Sending { snapshot, number }, CopyEvent::Sent(Err(e))) => (
            CopyState::Finished,
            CopyAction::Return(Err(e)),
        ),
        (CopyState::Polling { snapshot, number, poll }, CopyEvent::Number(now)) => if now
            != number {
            (CopyState::Reading { snapshot }, CopyAction::Read)
        } else {
            (CopyState::Pausing { snapshot, number, poll }, CopyAction::Sleep(COPY_POLL_MS))
        },
        (CopyState::Pausing { snapshot, number, poll }, _) => if poll < COPY_POLLS {
            (CopyState::Polling { snapshot, number, poll: poll + 1 }, CopyAction::Number)
        } else {
            (CopyState::Reading { snapshot }, CopyAction::Read)
        },
        (CopyState::Reading { snapshot }, CopyEvent::Text(Ok(text))) => (
            CopyState::Restoring { text },
            CopyAction::Restore(snapshot),
        ),
        (CopyState::Reading { snapshot }, CopyEvent::Text(Err(_))) => (
            CopyState::Restoring { text: String::new() },
            CopyAction::Restore(snapshot),
        ),
        (CopyState::Restoring { text }, _) => (CopyState::Finished, CopyAction::Return(Ok(text))),
        _ => vstd::pervasive::unreached(),
    }
}

/// The run of the copying over a sequence of events.
pub open spec fn copy_run<E>(events: Seq<CopyEventModel<E>>) -> Run<
    CopyModel,
    CopyActionModel<E>,
> {
    run(
        CopyState::Ready,
        |s: CopyModel, e: CopyEventModel<E>| copy_accepts(s, e),
        |s: CopyModel, e: CopyEventModel<E>| copy_next(s, e),
        events,
    )
}

/// The snapshots that were taken, in order.
pub open spec fn captured<E>(events: Seq<CopyEventModel<E>>) -> Seq<Seq<(u32, usize)>>
    decreases events.len(),
{
    if events.len() == 0 {
        Seq::empty()
    } else {
        let before = captured(events.drop_last());
        match events.last() {
            CopyEvent::Captured(Ok(snapshot)) => before.push(snapshot),
            _ => before,
        }
    }
}

/// The snapshots that were put back, in order.
pub open spec fn restored<E>(actions: Seq<CopyActionModel<E>>) -> Seq<Seq<(u32, usize)>>
    decreases actions.len(),
{
    if actions.len() == 0 {
        Seq::empty()
    } else {
        let before = restored(actions.drop_last());
        match actions.last() {
            CopyAction::Restore(snapshot) => before.push(snapshot),
            _ => before,
        }
    }
}

/// How often the keystrokes were sent with success.
pub open spec fn times_sent<E>(events: Seq<CopyEventModel<E>>) -> nat
    decreases events.len(),
{
    if events.len() == 0 {
        0
    } else {
        let before = times_sent(events.drop_last());
        match events.last() {
            CopyEvent::Sent(Ok(_)) => before + 1,
            _ => before,
        }
    }
}

/// How often the keystrokes were asked for.
pub open spec fn times_asked_to_send<E>(actions: Seq<CopyActionModel<E>>) -> nat
    decreases actions.len(),
{
    if actions.len() == 0 {
        0
    } else {
        times_asked_to_send(actions.drop_last()) + if actions.last() is Send {
            1nat
        } else {
            0nat
        }
    }
}

/// How long the copying waited, in milliseconds.
pub open spec fn time_slept<E>(actions: Seq<CopyActionModel<E>>) -> nat
    decreases actions.len(),
{
    if actions.len() == 0 {
        0
    } else {
        let before = time_slept(actions.drop_last());
        match actions.last() {
            CopyAction::Sleep(ms) => before + ms as nat,
            _ => before,
        }
    }
}

/// What the last reading of the clipboard gave; nothing where none did.
pub open spec fn text_copied<E>(events: Seq<CopyEventModel<E>>) -> Seq<char>
    decreases events.len(),
{
    if events.len() == 0 {
        Seq::empty()
    } else {
        match events.last() {
            CopyEvent::Text(Ok(text)) => text,
            CopyEvent::Text(Err(_)) => Seq::empty(),
            _ => text_copied(events.drop_last()),
        }
    }
}

/// The sequence number that the clipboard had first.
pub open spec fn first_number<E>(events: Seq<CopyEventModel<E>>) -> Option<u32>
    decreases events.len(),
{
    if events.len() == 0 {
        None
    } else {
        match (first_number(events.drop_last()), events.last()) {
            (Some(number), _) => Some(number),
            (None, CopyEvent::Number(number)) => Some(number),
            (None, _) => None,
        }
    }
}

/// What is known of the state after any events that the machine waited for.
proof fn lemma_copy_state<E>(events: Seq<CopyEventModel<E>>)
    requires
        copy_run(events).valid,
    ensures
        ({
            let outcome = copy_run(events);
            let slept = time_slept(outcome.actions);
            let sent = times_sent(events);
            let asked = times_asked_to_send(outcome.actions);
            &&& slept <= COPY_POLLS * COPY_POLL_MS
            &&& match outcome.state {
                CopyState::Ready => first_number(events) is None && captured(events) =~= Seq::empty() && restored(outcome.actions)
                    =~= Seq::empty() && sent == 0 && asked == 0 && slept == 0 && text_copied(events)
                    =~= Seq::empty(),
                CopyState::Capturing => first_number(events) is None && captured(events) =~= Seq::empty() && restored(
                    outcome.actions,
                ) =~= Seq::empty() && sent == 0 && asked == 0 && slept == 0 && text_copied(events)
                    =~= Seq::empty(),
                CopyState::Numbering { snapshot } => first_number(events) is None && captured(
                    events,
                ) =~= seq![snapshot]
                    && restored(outcome.actions) =~= Seq::empty() && sent == 0 && asked == 0
                    && slept == 0,
                CopyState::Sending { snapshot, number } => first_number(events) == Some(number)
                    && captured(events) =~= seq![snapshot]
                    && restored(outcome.actions) =~= Seq::empty() && sent == 0 && asked == 1
                    && slept == 0,
                CopyState::Polling { snapshot, number, poll } => first_number(events)
                    == Some(number) && captured(events) =~= seq![snapshot] && restored(outcome.actions) =~= Seq::empty() && sent == 1
                    && asked == 1 && poll >= 1 && slept == (poll - 1) * COPY_POLL_MS,
                CopyState::Pausing { snapshot, number, poll } => first_number(events)
                    == Some(number) && captured(events) =~= seq![snapshot] && restored(outcome.actions) =~= Seq::empty() && sent == 1
                    && asked == 1 && slept == poll * COPY_POLL_MS,
                CopyState::Reading { snapshot } => captured(events) =~= seq![snapshot] && restored(
                    outcome.actions,
                ) =~= Seq::empty() && sent == 1 && asked == 1,
                CopyState::Restoring { text } => captured(events).len() == 1 && restored(
                    outcome.actions,
                ) =~= captured(events) && sent == 1 && asked == 1 && text == text_copied(events),
                CopyState::Finished => {
                    &&& events.len() > 0
                    &&& outcome.actions.last() is Return
                    &&& sent == 1 ==> {
                        &&& captured(events).len() == 1
                        &&& restored(outcome.actions) =~= captured(events)
                        &&& outcome.actions.last()->Return_0 == Ok::<Seq<char>, E>(
                            text_copied(events),
                        )
                    }
                    &&& sent == 0 ==> {
                        &&& restored(outcome.actions) =~= Seq::empty()
                        &&& events.last() is Captured && events.last()->Captured_0 is Err && asked
                            == 0 && outcome.actions.last()->Return_0 == Ok::<Seq<char>, E>(Seq::empty())
                            || events.last() is Sent && asked == 1 && events.last()->Sent_0 is Err
                            && outcome.actions.last()->Return_0 == Err::<Seq<char>, E>(
                            events.last()->Sent_0->Err_0,
                        )
                    }
                    &&& sent <= 1
                },
            }
        }),
    decreases events.len(),
{
    if events.len() > 0 {
        let before = events.drop_last();
        lemma_copy_state(before);
        let earlier = copy_run(before);
        let outcome = copy_run(events);
        let (state, action) = copy_next(earlier.state, events.last());
        assert(outcome.actions == earlier.actions.push(action));
        assert(outcome.actions.drop_last() =~= earlier.actions);
    }
}

/// Once the keystrokes were sent, the snapshot that was taken is put back,
/// once, whether or not a text could be read; and the result is the text that
/// was read, or empty where none could be.
pub proof fn law_snapshot_is_put_back_after_a_copy<E>(events: Seq<CopyEventModel<E>>)
    requires
        copy_run(events).valid,
        copy_run(events).state is Finished,
        times_sent(events) > 0,
    ensures
        captured(events).len() == 1,
        restored(copy_run(events).actions) == captured(events),
        copy_run(events).actions.last() == CopyActionModel::<E>::Return(Ok(text_copied(events))),
{
    lemma_copy_state(events);
}

/// Where nothing was sent there is nothing to undo: either no snapshot could
/// be taken, no keystroke was asked for and the result is empty; or the
/// sending failed, and its error is the result. A snapshot that could be taken
/// never ends the copying, whatever it holds.
pub proof fn law_nothing_is_put_back_without_a_copy<E>(events: Seq<CopyEventModel<E>>)
    requires
        copy_run(events).valid,
        copy_run(events).state is Finished,
        times_sent(events) == 0,
    ensures
        restored(copy_run(events).actions).len() == 0,
        events.last() is Captured ==> events.last()->Captured_0 is Err && times_asked_to_send(
            copy_run(events).actions,
        ) == 0 && copy_run(events).actions.last() == CopyActionModel::<E>::Return(Ok(Seq::empty())),
        !(events.last() is Captured) ==> events.last() is Sent && events.last()->Sent_0 is Err
            && copy_run(events).actions.last() == CopyActionModel::<E>::Return(
            Err(events.last()->Sent_0->Err_0),
        ),
{
    lemma_copy_state(events);
}

/// The copying never waits longer than all of its looks at the clipboard take.
pub proof fn law_waiting_is_bounded<E>(events: Seq<CopyEventModel<E>>)
    requires
        copy_run(events).valid,
    ensures
        time_slept(copy_run(events).actions) <= COPY_POLLS * COPY_POLL_MS,
{
    lemma_copy_state(events);
}

/// The clipboard is read only once there is a sign of the copy, its sequence
/// number being no longer the one that it had before the keystrokes, or once
/// all of the looks at it have been in vain.
pub proof fn law_reading_waits_for_a_sign<E>(events: Seq<CopyEventModel<E>>)
    requires
        copy_run(events).valid,
        events.len() > 0,
        copy_run(events).actions.last() is Read,
    ensures
        first_number(events) is Some,
        events.last() is Number && Some(events.last()->Number_0) != first_number(events)
            || time_slept(copy_run(events).actions) == COPY_POLLS * COPY_POLL_MS,
{
    let before = events.drop_last();
    let earlier = copy_run(before);
    let outcome = copy_run(events);
    lemma_copy_state(before);
    let (state, action) = copy_next(earlier.state, events.last());
    assert(outcome.actions == earlier.actions.push(action));
    assert(outcome.actions.drop_last() =~= earlier.actions);
    assert(outcome.actions.last() == action);
}

/// A whole copy leaves the clipboard as it was. Where a snapshot was taken,
/// the keystrokes were sent, and the clipboard opened for the snapshot to be
/// put back, the snapshot is put back once: the clipboard is emptied, and then
/// every format that had been duplicated is put on it with its own data, in
/// order, and nothing else. The result is the text that was read in between.
pub proof fn law_copy_leaves_the_clipboard_as_it_was<E>(
    capture: Seq<CaptureEvent<E>>,
    snapshot: Seq<(u32, usize)>,
    events: Seq<CopyEventModel<E>>,
    restore: Seq<RestoreEvent>,
)
    requires
        capture_run(capture).valid,
        capture_run(capture).state is Finished,
        capture_run(capture).actions.last() == CaptureAction::<E, Seq<(u32, usize)>>::Return(
            Ok(snapshot),
        ),
        snapshot.len() <= usize::MAX,
        copy_run(events).valid,
        copy_run(events).state is Finished,
        times_sent(events) > 0,
        captured(events) == seq![snapshot],
        restore_run(snapshot, restore).valid,
        restore_run(snapshot, restore).state is Finished,
        was_opened(restore),
    ensures
        copy_run(events).actions.last() == CopyActionModel::<E>::Return(Ok(text_copied(events))),
        restored(copy_run(events).actions) == seq![snapshot],
        snapshot == duplicates(capture),
        clipboard_work(restore_run(snapshot, restore).actions) == seq![RestoreAction::Empty] + puts(
            duplicates(capture),
        ) + seq![RestoreAction::Close, RestoreAction::Return],
{
    law_snapshot_holds_what_was_duplicated(capture);
    law_snapshot_is_put_back_after_a_copy(events);
    law_restore_puts_the_snapshot_back(snapshot, restore);
}

/// There is one reading of the clipboard at most, and before it none.
proof fn lemma_one_reading<E>(events: Seq<CopyEventModel<E>>)
    requires
        copy_run(events).valid,
    ensures
        forall|i: int|
            0 <= i < events.len() && #[trigger] events[i] is Text ==> {
                &&& copy_run(events).state is Restoring || copy_run(events).state is Finished
                &&& times_sent(events) == 1
                &&& text_copied(events) == text_or_empty(events[i]->Text_0)
            },
    decreases events.len(),
{
    if events.len() > 0 {
        let before = events.drop_last();
        lemma_one_reading(before);
        lemma_copy_state(before);
        lemma_copy_state(events);
        let earlier = copy_run(before);
        assert forall|i: int| 0 <= i < events.len() && #[trigger] events[i] is Text implies {
            &&& copy_run(events).state is Restoring || copy_run(events).state is Finished
            &&& times_sent(events) == 1
            &&& text_copied(events) == text_or_empty(events[i]->Text_0)
        } by {
            if i < before.len() {
                assert(before[i] is Text);
                assert(earlier.state is Restoring);
            } else {
                assert(events[i] == events.last());
                assert(earlier.state is Reading);
            }
        }
    }
}

/// What a whole copy returns is what its reading of the clipboard gave: the
/// text that the units before the zero spell, or nothing where the reading
/// failed.
pub proof fn law_copy_returns_the_text_on_the_clipboard<E>(
    events: Seq<CopyEventModel<E>>,
    read: Seq<ReadEvent<E>>,
    result: Result<Seq<char>, E>,
)
    requires
        copy_run(events).valid,
        copy_run(events).state is Finished,
        read_run(read).valid,
        read_run(read).state is Finished,
        read_run(read).actions.last() == ReadAction::<E, Seq<char>>::Return(result),
        events.contains(CopyEventModel::<E>::Text(result)),
    ensures
        read.len() > 0,
        copy_run(events).actions.last() == CopyActionModel::<E>::Return(
            Ok(
                match read_error(read.last()) {
                    Some(_) => Seq::empty(),
                    None => utf16_lossy(units_read(read)),
                },
            ),
        ),
{
    law_clipboard_text_is_what_was_read(read);
    lemma_one_reading(events);
    lemma_copy_state(events);
    let i = choose|i: int| 0 <= i < events.len() && events[i] == CopyEventModel::<E>::Text(result);
    assert(events[i] is Text);
}

/// What was asked for last, going by the state.
proof fn lemma_copy_asked<E>(events: Seq<CopyEventModel<E>>)
    requires
        copy_run(events).valid,
    ensures
        ({
            let outcome = copy_run(events);
            let asked = outcome.actions.last();
            let n = events.len();
            let taken = |snapshot: Seq<(u32, usize)>|
                n > 1 && events[1] == CopyEventModel::<E>::Captured(Ok(snapshot));
            let first = |number: u32| n > 2 && events[2] == CopyEventModel::<E>::Number(number);
            match outcome.state {
                CopyState::Ready => n == 0,
                CopyState::Capturing => asked is Capture && n == 1,
                CopyState::Numbering { snapshot } => asked is Number && n == 2 && taken(snapshot),
                CopyState::Sending { snapshot, number } => asked is Send && n == 3 && taken(
                    snapshot,
                ) && first(number),
                CopyState::Polling { snapshot, number, poll } => asked is Number && n == 2 + 2
                    * poll && 1 <= poll <= COPY_POLLS && taken(snapshot) && first(number),
                CopyState::Pausing { snapshot, number, poll } => asked is Sleep && n == 3 + 2
                    * poll && 1 <= poll <= COPY_POLLS && taken(snapshot) && first(number),
                CopyState::Reading { snapshot } => asked is Read && taken(snapshot),
                CopyState::Restoring { text } => asked is Restore && n > 0 && match events.last() {
                    CopyEvent::Text(Ok(read)) => text == read,
                    CopyEvent::Text(Err(_)) => text == Seq::<char>::empty(),
                    _ => false,
                },
                CopyState::Finished => asked is Return,
            }
        }),
    decreases events.len(),
{
    if events.len() > 0 {
        let before = events.drop_last();
        lemma_copy_asked(before);
        let earlier = copy_run(before);
        let outcome = copy_run(events);
        let (state, action) = copy_next(earlier.state, events.last());
        assert(outcome.actions == earlier.actions.push(action));
        assert(forall|i: int| 0 <= i < before.len() ==> #[trigger] events[i] == before[i]);
        assert(events[events.len() - 1] == events.last());
    }
}

/// What each reply leads to, in every run. The copying begins with a snapshot;
/// any snapshot that could be taken leads on to the keystrokes, and none ends
/// the copying with an empty result. Failed keystrokes end it with their error.
/// After the keystrokes, the clipboard is read as soon as its sequence number
/// is not the first one, or after the last of the waits. Whatever was read, the
/// snapshot that was taken is put back, and then the text is returned.
pub proof fn law_copying_goes_step_by_step<E>(events: Seq<CopyEventModel<E>>)
    requires
        copy_run(events).valid,
        events.len() > 0,
    ensures
        ({
            let action = copy_run(events).actions.last();
            let n = events.len();
            match events.last() {
                CopyEvent::Start => events.len() == 1 && action is Capture,
                CopyEvent::Captured(Ok(_)) => action is Number,
                CopyEvent::Captured(Err(_)) => action == CopyActionModel::<E>::Return(
                    Ok(Seq::empty()),
                ),
                CopyEvent::Number(number) => if n == 3 {
                    action is Send
                } else if events[2] != CopyEventModel::<E>::Number(number) {
                    action is Read
                } else {
                    action == CopyActionModel::<E>::Sleep(COPY_POLL_MS)
                },
                CopyEvent::Sent(Ok(_)) => action is Number,
                CopyEvent::Sent(Err(e)) => action == CopyActionModel::<E>::Return(Err(e)),
                CopyEvent::Slept => if n < 4 + 2 * COPY_POLLS {
                    action is Number
                } else {
                    action is Read
                },
                CopyEvent::Text(_) => events[1] matches CopyEvent::Captured(Ok(snapshot)) && action
                    == CopyActionModel::<E>::Restore(snapshot),
                CopyEvent::Restored => match events[n - 2] {
                    CopyEvent::Text(Ok(text)) => action == CopyActionModel::<E>::Return(Ok(text)),
                    CopyEvent::Text(Err(_)) => action == CopyActionModel::<E>::Return(
                        Ok(Seq::empty()),
                    ),
                    _ => false,
                },
            }
        }),
{
    let before = events.drop_last();
    lemma_copy_asked(before);
    let earlier = copy_run(before);
    let outcome = copy_run(events);
    let (state, action) = copy_next(earlier.state, events.last());
    assert(outcome.actions == earlier.actions.push(action));
    assert(outcome.actions.last() == action);
    assert(forall|i: int| 0 <= i < before.len() ==> #[trigger] events[i] == before[i]);
    if before.len() > 0 {
        assert(before.last() == events[events.len() - 2]);
    }
}

/// The copying takes every reply to what it asked for last, and nothing else.
/// Once it has returned it takes nothing any more.
pub proof fn law_copying_takes_every_reply<E>(
    events: Seq<CopyEventModel<E>>,
    event: CopyEventModel<E>,
)
    requires
        copy_run(events).valid,
    ensures
        copy_run(events.push(event)).valid <==> if events.len() == 0 {
            event is Start
        } else {
            match copy_run(events).actions.last() {
                CopyAction::Capture => event is Captured,
                CopyAction::Number => event is Number,
                CopyAction::Send => event is Sent,
                CopyAction::Sleep(_) => event is Slept,
                CopyAction::Read => event is Text,
                CopyAction::Restore(_) => event is Restored,
                CopyAction::Return(_) => false,
            }
        },
{
    lemma_copy_asked(events);
    assert(events.push(event).drop_last() =~= events);
}

/// Every snapshot that can be taken, whatever it holds, leads to the
/// keystrokes being sent.
pub proof fn law_every_snapshot_leads_to_the_keystrokes<E>(
    snapshot: Seq<(u32, usize)>,
    number: u32,
)
    ensures
        ({
            let outcome = copy_run(
                seq![
                    CopyEventModel::<E>::Start,
                    CopyEvent::Captured(Ok(snapshot)),
                    CopyEvent::Number(number),
                ],
            );
            &&& outcome.valid
            &&& outcome.actions =~= seq![
                CopyActionModel::<E>::Capture,
                CopyAction::Number,
                CopyAction::Send,
            ]
        }),
{
    let e1 = seq![CopyEventModel::<E>::Start];
    let e2 = e1.push(CopyEvent::Captured(Ok(snapshot)));
    let e3 = e2.push(CopyEvent::Number(number));
    assert(e1.drop_last() =~= Seq::empty());
    assert(e2.drop_last() =~= e1);
    assert(e3.drop_last() =~= e2);
    assert(copy_run(Seq::<CopyEventModel<E>>::empty()).state is Ready);
    assert(copy_run(e1).state is Capturing);
    assert(copy_run(e2).state is Numbering);
    assert(e3 =~= seq![
        CopyEventModel::<E>::Start,
        CopyEvent::Captured(Ok(snapshot)),
        CopyEvent::Number(number),
    ]);
}

/// The model of a reply and of a request leaves nothing of them out: snapshots
/// are seen item by item, texts character by character, and everything else as
/// it is.
pub proof fn law_copies_are_seen_whole<E>(
    event: CopyEvent<E, ClipboardSnapshot, String>,
    action: CopyAction<E, ClipboardSnapshot, String>,
)
    ensures
        CopyState::<ClipboardSnapshot, String>::Ready@ is Ready,
        match event {
            CopyEvent::Start => event@ is Start,
            CopyEvent::Captured(Ok(snapshot)) => event@ == CopyEventModel::<E>::Captured(
                Ok(snapshot.items@),
            ),
            CopyEvent::Captured(Err(e)) => event@ == CopyEventModel::<E>::Captured(Err(e)),
            CopyEvent::Number(number) => event@ == CopyEventModel::<E>::Number(number),
            CopyEvent::Sent(r) => event@ == CopyEventModel::<E>::Sent(r),
            CopyEvent::Slept => event@ is Slept,
            CopyEvent::Text(Ok(text)) => event@ == CopyEventModel::<E>::Text(Ok(text@)),
            CopyEvent::Text(Err(e)) => event@ == CopyEventModel::<E>::Text(Err(e)),
            CopyEvent::Restored => event@ is Restored,
        },
        match action {
            CopyAction::Capture => action@ is Capture,
            CopyAction::Number => action@ is Number,
            CopyAction::Send => action@ is Send,
            CopyAction::Sleep(ms) => action@ == CopyActionModel::<E>::Sleep(ms),
            CopyAction::Read => action@ is Read,
            CopyAction::Restore(snapshot) => action@ == CopyActionModel::<E>::Restore(
                snapshot.items@,
            ),
            CopyAction::Return(Ok(text)) => action@ == CopyActionModel::<E>::Return(Ok(text@)),
            CopyAction::Return(Err(e)) => action@ == CopyActionModel::<E>::Return(Err(e)),
        },
{
}

/// A step can be made for every reply that is waited for, and it is the one that
/// the runs are made of.
pub proof fn law_copying_is_made_of_steps<E>(
    state: CopyState<ClipboardSnapshot, String>,
    event: CopyEvent<E, ClipboardSnapshot, String>,
    result: (CopyState<ClipboardSnapshot, String>, CopyAction<E, ClipboardSnapshot, String>),
)
    requires
        copy_accepts(state@, event@),
    ensures
        call_requires(get_selection_via_copy_preserving_clipboard::<E>, (state, event)),
        call_ensures(get_selection_via_copy_preserving_clipboard::<E>, (state, event), result) ==> (result.0@, result.1@) == copy_next(
            state@,
            event@,
        ),
{
}

} // verus!
