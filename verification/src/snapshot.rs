//! A snapshot of the clipboard: taking one, and putting it back.
//!
//! The snapshot holds duplicates of the data itself, format by format, so that
//! what is put back does not depend on whoever owned the clipboard before.

use crate::machine::{lemma_run_push, run, Run};
use vstd::prelude::*;

verus! {

/// What `GetLastError` reports where nothing went wrong.
pub const ERROR_SUCCESS: u32 = 0;

/// The allocation flags that leave the kind of memory to the system.
pub const DEFAULT_MEMORY: u32 = 0;

/// How often the clipboard is tried for before a snapshot is given up.
pub const OPEN_ATTEMPTS: u32 = 5;

/// How long to wait before the clipboard is tried for again, in milliseconds.
pub const OPEN_RETRY_MS: u64 = 10;

/// The data of a clipboard: a format and a handle to the data in it, for each
/// format that could be duplicated.
#[derive(Debug, PartialEq, Eq)]
pub struct ClipboardSnapshot {
    pub items: Vec<(u32, usize)>,
}

impl View for ClipboardSnapshot {
    type V = Seq<(u32, usize)>;

    open spec fn view(&self) -> Seq<(u32, usize)> {
        self.items@
    }
}

/// How far the taking of a snapshot has come. `S` is the type of the snapshot.
#[derive(Debug, PartialEq, Eq)]
pub enum CaptureState<S> {
    /// Nothing has been asked for.
    Ready,
    /// Waiting for the clipboard.
    Opening,
    /// Waiting for the next format.
    Enumerating { kept: S },
    /// Waiting to learn why there is no next format.
    Checking { kept: S },
    /// Waiting for the data in `format`.
    Fetching { format: u32, kept: S },
    /// Waiting for a duplicate of the data in `format`.
    Duplicating { format: u32, kept: S },
    /// Waiting for the clipboard to close, with the snapshot complete.
    Closing { kept: S },
    /// Waiting for the clipboard to close after a failure.
    Abandoning,
    /// Waiting for the error to report.
    Failing,
    /// The result has been returned.
    Finished,
}

/// The replies that the taking of a snapshot waits for.
#[derive(Debug, PartialEq, Eq)]
pub enum CaptureEvent<E> {
    /// The taking begins.
    Start,
    /// The clipboard is open, or could not be opened.
    Opened(Result<(), E>),
    /// The next format; 0 where there is none.
    Format(u32),
    /// The code of the thread's last error.
    LastError(u32),
    /// The handle to the data in a format, where there is one.
    Data(Option<usize>),
    /// The handle to the duplicate; 0 where there is none.
    Duplicated(usize),
    /// The clipboard was closed.
    Closed,
    /// The thread's last error.
    ThreadError(E),
}

/// What the taking of a snapshot asks for.
#[derive(Debug, PartialEq, Eq)]
pub enum CaptureAction<E, S> {
    /// Open the clipboard for this window, or for none.
    Open { owner: Option<usize> },
    /// Find the format that follows this one; 0 stands before the first.
    NextFormat(u32),
    /// Get the code of the thread's last error.
    LastError,
    /// Get the data in this format.
    Data(u32),
    /// Duplicate the data behind this handle, which is in this format, into
    /// memory that is allocated with these flags.
    Duplicate { handle: usize, format: u16, flags: u32 },
    /// Close the clipboard; how that goes does not matter.
    Close,
    /// Get the thread's last error.
    ThreadError,
    /// Return this result.
    Return(Result<S, E>),
}

impl View for CaptureState<ClipboardSnapshot> {
    type V = CaptureState<Seq<(u32, usize)>>;

    open spec fn view(&self) -> CaptureState<Seq<(u32, usize)>> {
        match *self {
            CaptureState::Ready => CaptureState::Ready,
            CaptureState::Opening => CaptureState::Opening,
            CaptureState::Enumerating { kept } => CaptureState::Enumerating { kept: kept@ },
            CaptureState::Checking { kept } => CaptureState::Checking { kept: kept@ },
            CaptureState::Fetching { format, kept } => CaptureState::Fetching {
                format,
                kept: kept@,
            },
            CaptureState::Duplicating { format, kept } => CaptureState::Duplicating {
                format,
                kept: kept@,
            },
            CaptureState::Closing { kept } => CaptureState::Closing { kept: kept@ },
            CaptureState::Abandoning => CaptureState::Abandoning,
            CaptureState::Failing => CaptureState::Failing,
            CaptureState::Finished => CaptureState::Finished,
        }
    }
}

impl<E> View for CaptureAction<E, ClipboardSnapshot> {
    type V = CaptureAction<E, Seq<(u32, usize)>>;

    open spec fn view(&self) -> CaptureAction<E, Seq<(u32, usize)>> {
        match *self {
            CaptureAction::Open { owner } => CaptureAction::Open { owner },
            CaptureAction::NextFormat(format) => CaptureAction::NextFormat(format),
            CaptureAction::LastError => CaptureAction::LastError,
            CaptureAction::Data(format) => CaptureAction::Data(format),
            CaptureAction::Duplicate { handle, format, flags } => CaptureAction::Duplicate {
                handle,
                format,
                flags,
            },
            CaptureAction::Close => CaptureAction::Close,
            CaptureAction::ThreadError => CaptureAction::ThreadError,
            CaptureAction::Return(Ok(snapshot)) => CaptureAction::Return(Ok(snapshot@)),
            CaptureAction::Return(Err(e)) => CaptureAction::Return(Err(e)),
        }
    }
}

/// Whether an event is one that the state waits for.
pub open spec fn capture_accepts<E>(
    state: CaptureState<Seq<(u32, usize)>>,
    event: CaptureEvent<E>,
) -> bool {
    match state {
        CaptureState::Ready => event is Start,
        CaptureState::Opening => event is Opened,
        CaptureState::Enumerating { kept } => event is Format,
        CaptureState::Checking { kept } => event is LastError,
        CaptureState::Fetching { format, kept } => event is Data,
        CaptureState::Duplicating { format, kept } => event is Duplicated,
        CaptureState::Closing { kept } => event is Closed,
        CaptureState::Abandoning => event is Closed,
        CaptureState::Failing => event is ThreadError,
        CaptureState::Finished => false,
    }
}

/// What an event makes of the state, and what is asked for next.
///
/// The formats are enumerated one by one. A format whose data cannot be had or
/// cannot be duplicated is passed over. The enumeration is complete where it
/// ends without an error, and the snapshot fails where it ends with one.
pub open spec fn capture_next<E>(
    state: CaptureState<Seq<(u32, usize)>>,
    event: CaptureEvent<E>,
) -> (CaptureState<Seq<(u32, usize)>>, CaptureAction<E, Seq<(u32, usize)>>) {
    match state {
        CaptureState::Ready => (CaptureState::Opening, CaptureAction::Open { owner: None }),
        CaptureState::Opening => match event->Opened_0 {
            Ok(_) => (
                CaptureState::Enumerating { kept: Seq::empty() },
                CaptureAction::NextFormat(0),
            ),
            Err(e) => (CaptureState::Finished, CaptureAction::Return(Err(e))),
        },
        CaptureState::Enumerating { kept } => if event->Format_0 == 0 {
            (CaptureState::Checking { kept }, CaptureAction::LastError)
        } else {
            (
                CaptureState::Fetching { format: event->Format_0, kept },
                CaptureAction::Data(event->Format_0),
            )
        },
        CaptureState::Checking { kept } => if event->LastError_0 == ERROR_SUCCESS {
            (CaptureState::Closing { kept }, CaptureAction::Close)
        } else {
            (CaptureState::Abandoning, CaptureAction::Close)
        },
        CaptureState::Fetching { format, kept } => match event->Data_0 {
            Some(handle) => (
                CaptureState::Duplicating { format, kept },
                CaptureAction::Duplicate {
                    handle,
                    format: (format as int % 0x1_0000) as u16,
                    flags: DEFAULT_MEMORY,
                },
            ),
            None => (CaptureState::Enumerating { kept }, CaptureAction::NextFormat(format)),
        },
        CaptureState::Duplicating { format, kept } => (
            CaptureState::Enumerating {
                kept: if event->Duplicated_0 != 0 {
                    kept.push((format, event->Duplicated_0))
                } else {
                    kept
                },
            },
            CaptureAction::NextFormat(format),
        ),
        CaptureState::Closing { kept } => (
            CaptureState::Finished,
            CaptureAction::Return(Ok(kept)),
        ),
        CaptureState::Abandoning => (CaptureState::Failing, CaptureAction::ThreadError),
        CaptureState::Failing => (
            CaptureState::Finished,
            CaptureAction::Return(Err(event->ThreadError_0)),
        ),
        CaptureState::Finished => (state, CaptureAction::Close),
    }
}

/// How far the putting back of a snapshot has come. `S` is the type of the
/// snapshot.
#[derive(Debug, PartialEq, Eq)]
pub enum RestoreState<S> {
    /// Nothing has been asked for.
    Ready { items: S },
    /// Waiting for the clipboard, for the given time.
    Opening { items: S, attempt: u32 },
    /// Waiting a little before the clipboard is tried for again.
    Waiting { items: S, attempt: u32 },
    /// Waiting for the clipboard to be emptied.
    Emptying { items: S },
    /// Waiting for the item at `index` to be put on the clipboard.
    Putting { items: S, index: usize },
    /// Waiting for the clipboard to close.
    Closing,
    /// All is done.
    Finished,
}

/// The replies that the putting back of a snapshot waits for.
#[derive(Debug, PartialEq, Eq)]
pub enum RestoreEvent {
    /// The putting back begins.
    Start,
    /// Whether the clipboard is open.
    Opened(bool),
    /// What was asked for has been tried; how it went does not matter.
    Done,
}

/// What the putting back of a snapshot asks for.
#[derive(Debug, PartialEq, Eq)]
pub enum RestoreAction {
    /// Open the clipboard for this window, or for none.
    Open { owner: Option<usize> },
    /// Wait for this many milliseconds.
    Sleep(u64),
    /// Empty the clipboard.
    Empty,
    /// Put the data behind a handle on the clipboard, in the given format.
    Put { format: u32, handle: usize },
    /// Close the clipboard.
    Close,
    /// Return.
    Return,
}

impl View for RestoreState<ClipboardSnapshot> {
    type V = RestoreState<Seq<(u32, usize)>>;

    open spec fn view(&self) -> RestoreState<Seq<(u32, usize)>> {
        match *self {
            RestoreState::Ready { items } => RestoreState::Ready { items: items@ },
            RestoreState::Opening { items, attempt } => RestoreState::Opening {
                items: items@,
                attempt,
            },
            RestoreState::Waiting { items, attempt } => RestoreState::Waiting {
                items: items@,
                attempt,
            },
            RestoreState::Emptying { items } => RestoreState::Emptying { items: items@ },
            RestoreState::Putting { items, index } => RestoreState::Putting {
                items: items@,
                index,
            },
            RestoreState::Closing => RestoreState::Closing,
            RestoreState::Finished => RestoreState::Finished,
        }
    }
}

/// Whether an event is one that the state waits for.
pub open spec fn restore_accepts(
    state: RestoreState<Seq<(u32, usize)>>,
    event: RestoreEvent,
) -> bool {
    match state {
        RestoreState::Ready { items } => event is Start,
        RestoreState::Opening { items, attempt } => attempt <= OPEN_ATTEMPTS && event is Opened,
        RestoreState::Waiting { items, attempt } => attempt <= OPEN_ATTEMPTS && event is Done,
        RestoreState::Emptying { items } => event is Done,
        RestoreState::Putting { items, index } => index < items.len() && event is Done,
        RestoreState::Closing => event is Done,
        RestoreState::Finished => false,
    }
}

/// The item at `index` is put next; where there is none, the clipboard is
/// closed.
pub open spec fn next_item(items: Seq<(u32, usize)>, index: int) -> (
    RestoreState<Seq<(u32, usize)>>,
    RestoreAction,
) {
    if index < items.len() {
        (
            RestoreState::Putting { items, index: index as usize },
            RestoreAction::Put { format: items[index].0, handle: items[index].1 },
        )
    } else {
        (RestoreState::Closing, RestoreAction::Close)
    }
}

/// What an event makes of the state, and what is asked for next.
///
/// The clipboard is tried for a few times, with a pause after each failure. If
/// it never opens, nothing is put back. Otherwise it is emptied, every item is
/// put on it, and it is closed.
pub open spec fn restore_next(state: RestoreState<Seq<(u32, usize)>>, event: RestoreEvent) -> (
    RestoreState<Seq<(u32, usize)>>,
    RestoreAction,
) {
    match state {
        RestoreState::Ready { items } => (
            RestoreState::Opening { items, attempt: 1 },
            RestoreAction::Open { owner: None },
        ),
        RestoreState::Opening { items, attempt } => if event->Opened_0 {
            (RestoreState::Emptying { items }, RestoreAction::Empty)
        } else {
            (RestoreState::Waiting { items, attempt }, RestoreAction::Sleep(OPEN_RETRY_MS))
        },
        RestoreState::Waiting { items, attempt } => if attempt < OPEN_ATTEMPTS {
            (
                RestoreState::Opening { items, attempt: (attempt + 1) as u32 },
                RestoreAction::Open { owner: None },
            )
        } else {
            (RestoreState::Finished, RestoreAction::Return)
        },
        RestoreState::Emptying { items } => next_item(items, 0),
        RestoreState::Putting { items, index } => next_item(items, index + 1),
        RestoreState::Closing => (RestoreState::Finished, RestoreAction::Return),
        RestoreState::Finished => (state, RestoreAction::Return),
    }
}

impl ClipboardSnapshot {
    /// One step of taking a snapshot of the clipboard.
    pub fn capture<E>(state: CaptureState<ClipboardSnapshot>, event: CaptureEvent<E>) -> (r: (
        CaptureState<ClipboardSnapshot>,
        CaptureAction<E, ClipboardSnapshot>,
    ))
        requires
            capture_accepts(state@, event),
        ensures
            (r.0@, r.1@) == capture_next(state@, event),
    {
        match (state, event) {
            (CaptureState::Ready, _) => (
                CaptureState::Opening,
                CaptureAction::Open { owner: None },
            ),
            (CaptureState::Opening, CaptureEvent::Opened(Ok(()))) => {
                let kept = ClipboardSnapshot { items: Vec::new() };
                (CaptureState::Enumerating { kept }, CaptureAction::NextFormat(0))
            },
            (CaptureState::Opening, CaptureEvent::Opened(Err(e))) => (
                CaptureState::Finished,
                CaptureAction::Return(Err(e)),
            ),
            (CaptureState::Enumerating { kept }, CaptureEvent::Format(format)) => if format == 0 {
                (CaptureState::Checking { kept }, CaptureAction::LastError)
            } else {
                (CaptureState::Fetching { format, kept }, CaptureAction::Data(format))
            },
            (CaptureState::Checking { kept }, CaptureEvent::LastError(code)) => if code
                == ERROR_SUCCESS {
                (CaptureState::Closing { kept }, CaptureAction::Close)
            } else {
                (CaptureState::Abandoning, CaptureAction::Close)
            },
            (CaptureState::Fetching { format, kept }, CaptureEvent::Data(Some(handle))) => {
                assert(format as u16 == format % 0x1_0000) by (bit_vector);
                #[verifier::truncate]
                let short: u16 = format as u16;
                (
                    CaptureState::Duplicating { format, kept },
                    CaptureAction::Duplicate { handle, format: short, flags: DEFAULT_MEMORY },
                )
            },
            (CaptureState::Fetching { format, kept }, CaptureEvent::Data(None)) => (
                CaptureState::Enumerating { kept },
                CaptureAction::NextFormat(format),
            ),
            (CaptureState::Duplicating { format, kept }, CaptureEvent::Duplicated(handle)) => {
                let mut kept = kept;
                if handle != 0 {
                    kept.items.push((format, handle));
                }
                (CaptureState::Enumerating { kept }, CaptureAction::NextFormat(format))
            },
            (CaptureState::Closing { kept }, _) => (
                CaptureState::Finished,
                CaptureAction::Return(Ok(kept)),
            ),
            (CaptureState::Abandoning, _) => (CaptureState::Failing, CaptureAction::ThreadError),
            (CaptureState::Failing, CaptureEvent::ThreadError(e)) => (
                CaptureState::Finished,
                CaptureAction::Return(Err(e)),
            ),
            _ => vstd::pervasive::unreached(),
        }
    }

    /// Moves on to the item at `index`, or closes the clipboard where there is
    /// none.
    fn put_at(self, index: usize) -> (r: (RestoreState<ClipboardSnapshot>, RestoreAction))
        requires
            index <= self@.len(),
        ensures
            (r.0@, r.1) == next_item(self@, index as int),
    {
        if index < self.items.len() {
            let (format, handle) = self.items[index];
            (RestoreState::Putting { items: self, index }, RestoreAction::Put { format, handle })
        } else {
            (RestoreState::Closing, RestoreAction::Close)
        }
    }

    /// One step of putting a snapshot back on the clipboard.
    pub fn restore(state: RestoreState<ClipboardSnapshot>, event: RestoreEvent) -> (r: (
        RestoreState<ClipboardSnapshot>,
        RestoreAction,
    ))
        requires
            restore_accepts(state@, event),
        ensures
            (r.0@, r.1) == restore_next(state@, event),
    {
        match (state, event) {
            (RestoreState::Ready { items }, _) => (
                RestoreState::Opening { items, attempt: 1 },
                RestoreAction::Open { owner: None },
            ),
            (RestoreState::Opening { items, attempt }, RestoreEvent::Opened(opened)) => if opened {
                (RestoreState::Emptying { items }, RestoreAction::Empty)
            } else {
                (
                    RestoreState::Waiting { items, attempt },
                    RestoreAction::Sleep(OPEN_RETRY_MS),
                )
            },
            (RestoreState::Waiting { items, attempt }, _) => if attempt < OPEN_ATTEMPTS {
                (
                    RestoreState::Opening { items, attempt: attempt + 1 },
                    RestoreAction::Open { owner: None },
                )
            } else {
                (RestoreState::Finished, RestoreAction::Return)
            },
            (RestoreState::Emptying { items }, _) => items.put_at(0),
            (RestoreState::Putting { items, index }, _) => {
                assert(index < items.items.len());
                items.put_at(index + 1)
            },
            (RestoreState::Closing, _) => (RestoreState::Finished, RestoreAction::Return),
            _ => vstd::pervasive::unreached(),
        }
    }
}

/// The run of the taking of a snapshot over a sequence of events.
pub open spec fn capture_run<E>(events: Seq<CaptureEvent<E>>) -> Run<
    CaptureState<Seq<(u32, usize)>>,
    CaptureAction<E, Seq<(u32, usize)>>,
> {
    run(
        CaptureState::Ready,
        |s: CaptureState<Seq<(u32, usize)>>, e: CaptureEvent<E>| capture_accepts(s, e),
        |s: CaptureState<Seq<(u32, usize)>>, e: CaptureEvent<E>| capture_next(s, e),
        events,
    )
}

proof fn lemma_capture_push<E>(events: Seq<CaptureEvent<E>>, event: CaptureEvent<E>)
    ensures
        ({
            let before = capture_run(events);
            let after = capture_run(events.push(event));
            &&& after.valid == (before.valid && capture_accepts(before.state, event))
            &&& after.state == capture_next(before.state, event).0
            &&& after.actions == before.actions.push(capture_next(before.state, event).1)
        }),
{
    lemma_run_push(
        CaptureState::Ready,
        |s: CaptureState<Seq<(u32, usize)>>, e: CaptureEvent<E>| capture_accepts(s, e),
        |s: CaptureState<Seq<(u32, usize)>>, e: CaptureEvent<E>| capture_next(s, e),
        events,
        event,
    );
}

/// The format that was enumerated last; 0 where none was.
pub open spec fn last_format<E>(events: Seq<CaptureEvent<E>>) -> u32
    decreases events.len(),
{
    if events.len() == 0 {
        0
    } else {
        match events.last() {
            CaptureEvent::Format(format) => format,
            _ => last_format(events.drop_last()),
        }
    }
}

/// The duplicates that were made, each with the format that had been
/// enumerated last.
pub open spec fn duplicates<E>(events: Seq<CaptureEvent<E>>) -> Seq<(u32, usize)>
    decreases events.len(),
{
    if events.len() == 0 {
        Seq::empty()
    } else {
        let before = events.drop_last();
        match events.last() {
            CaptureEvent::Duplicated(handle) => if handle != 0 {
                duplicates(before).push((last_format(before), handle))
            } else {
                duplicates(before)
            },
            _ => duplicates(before),
        }
    }
}

/// How often the clipboard was opened.
pub open spec fn times_opened<E>(events: Seq<CaptureEvent<E>>) -> nat
    decreases events.len(),
{
    if events.len() == 0 {
        0
    } else {
        let before = times_opened(events.drop_last());
        match events.last() {
            CaptureEvent::Opened(Ok(_)) => before + 1,
            _ => before,
        }
    }
}

/// How often the clipboard was closed.
pub open spec fn times_closed<E, S>(actions: Seq<CaptureAction<E, S>>) -> nat
    decreases actions.len(),
{
    if actions.len() == 0 {
        0
    } else {
        times_closed(actions.drop_last()) + if actions.last() is Close {
            1nat
        } else {
            0nat
        }
    }
}

/// What is known of the state after any events that the machine waited for.
proof fn lemma_capture_state<E>(events: Seq<CaptureEvent<E>>)
    requires
        capture_run(events).valid,
    ensures
        ({
            let outcome = capture_run(events);
            let opened = times_opened(events);
            let closed = times_closed(outcome.actions);
            &&& match outcome.state {
                CaptureState::Ready => opened == 0 && closed == 0 && duplicates(events)
                    =~= Seq::empty() && last_format(events) == 0,
                CaptureState::Opening => opened == 0 && closed == 0 && duplicates(events)
                    =~= Seq::empty() && last_format(events) == 0,
                CaptureState::Enumerating { kept } => opened == 1 && closed == 0 && kept
                    == duplicates(events) && outcome.actions.last()
                    == CaptureAction::<E, Seq<(u32, usize)>>::NextFormat(last_format(events)),
                CaptureState::Checking { kept } => opened == 1 && closed == 0 && kept
                    == duplicates(events),
                CaptureState::Fetching { format, kept } => opened == 1 && closed == 0 && kept
                    == duplicates(events) && format == last_format(events),
                CaptureState::Duplicating { format, kept } => opened == 1 && closed == 0 && kept
                    == duplicates(events) && format == last_format(events),
                CaptureState::Closing { kept } => opened == 1 && closed == 1 && kept
                    == duplicates(events),
                CaptureState::Abandoning => opened == 1 && closed == 1,
                CaptureState::Failing => opened == 1 && closed == 1,
                CaptureState::Finished => {
                    &&& events.len() > 0
                    &&& opened == closed
                    &&& outcome.actions.last() is Return
                    &&& outcome.actions.last()->Return_0 matches Ok(kept) ==> opened == 1 && kept
                        == duplicates(events)
                },
            }
        }),
    decreases events.len(),
{
    if events.len() > 0 {
        let before = events.drop_last();
        lemma_capture_state(before);
        let earlier = capture_run(before);
        let outcome = capture_run(events);
        let (state, action) = capture_next(earlier.state, events.last());
        assert(outcome.actions == earlier.actions.push(action));
        assert(outcome.actions.drop_last() =~= earlier.actions);
    }
}

/// Whatever the replies were, a snapshot that was taken holds the duplicates
/// that were made, each under its format, in the order of the enumeration.
pub proof fn law_snapshot_holds_what_was_duplicated<E>(events: Seq<CaptureEvent<E>>)
    requires
        capture_run(events).valid,
        capture_run(events).state is Finished,
    ensures
        events.len() > 0,
        capture_run(events).actions.last() is Return,
        capture_run(events).actions.last()->Return_0 matches Ok(kept) ==> kept == duplicates(
            events,
        ),
{
    lemma_capture_state(events);
}

/// Whatever the replies were, once a result is returned the clipboard has been
/// closed exactly as often as it was opened.
pub proof fn law_capture_closes_the_clipboard<E>(events: Seq<CaptureEvent<E>>)
    requires
        capture_run(events).valid,
        capture_run(events).state is Finished,
    ensures
        times_closed(capture_run(events).actions) == times_opened(events),
{
    lemma_capture_state(events);
}

/// Whether a reply makes the taking of a snapshot fail: the clipboard does not
/// open, or the enumeration of its formats ends with an error.
pub open spec fn is_failure<E>(event: CaptureEvent<E>) -> bool {
    match event {
        CaptureEvent::Opened(Err(_)) => true,
        CaptureEvent::LastError(code) => code != ERROR_SUCCESS,
        _ => false,
    }
}

/// Whether some reply makes the taking of a snapshot fail.
pub open spec fn has_failure<E>(events: Seq<CaptureEvent<E>>) -> bool {
    exists|i: int| 0 <= i < events.len() && is_failure(#[trigger] events[i])
}

proof fn lemma_failure_step<E>(events: Seq<CaptureEvent<E>>)
    requires
        events.len() > 0,
    ensures
        has_failure(events) <==> has_failure(events.drop_last()) || is_failure(events.last()),
{
    let before = events.drop_last();
    if has_failure(before) {
        let i = choose|i: int| 0 <= i < before.len() && is_failure(#[trigger] before[i]);
        assert(is_failure(events[i]));
    }
    if is_failure(events.last()) {
        assert(is_failure(events[events.len() - 1]));
    }
    if has_failure(events) && !is_failure(events.last()) {
        let i = choose|i: int| 0 <= i < events.len() && is_failure(#[trigger] events[i]);
        assert(is_failure(before[i]));
    }
}

/// Whether every item has a format.
pub open spec fn formats_are_set(items: Seq<(u32, usize)>) -> bool {
    forall|i: int| 0 <= i < items.len() ==> (#[trigger] items[i]).0 != 0
}

/// Whether every item has its data.
pub open spec fn handles_are_set(items: Seq<(u32, usize)>) -> bool {
    forall|i: int| 0 <= i < items.len() ==> (#[trigger] items[i]).1 != 0
}

/// What is known of failures after any events that the machine waited for.
proof fn lemma_capture_failures<E>(events: Seq<CaptureEvent<E>>)
    requires
        capture_run(events).valid,
    ensures
        ({
            let outcome = capture_run(events);
            match outcome.state {
                CaptureState::Ready => !has_failure(events),
                CaptureState::Opening => !has_failure(events),
                CaptureState::Enumerating { kept } => !has_failure(events) && formats_are_set(kept)
                    && handles_are_set(kept),
                CaptureState::Checking { kept } => !has_failure(events) && formats_are_set(kept)
                    && handles_are_set(kept),
                CaptureState::Fetching { format, kept } => !has_failure(events) && formats_are_set(
                    kept,
                ) && handles_are_set(kept) && format != 0,
                CaptureState::Duplicating { format, kept } => !has_failure(events)
                    && formats_are_set(kept) && handles_are_set(kept) && format != 0,
                CaptureState::Closing { kept } => !has_failure(events) && formats_are_set(kept)
                    && handles_are_set(kept),
                CaptureState::Abandoning => has_failure(events),
                CaptureState::Failing => has_failure(events),
                CaptureState::Finished => {
                    &&& events.len() > 0
                    &&& outcome.actions.last() is Return
                    &&& match outcome.actions.last()->Return_0 {
                        Ok(kept) => !has_failure(events) && formats_are_set(kept)
                            && handles_are_set(kept),
                        Err(e) => has_failure(events) && (events.last() == CaptureEvent::Opened(
                            Err(e),
                        ) || events.last() == CaptureEvent::ThreadError(e)),
                    }
                },
            }
        }),
    decreases events.len(),
{
    if events.len() > 0 {
        let before = events.drop_last();
        lemma_capture_failures(before);
        lemma_failure_step(events);
        let earlier = capture_run(before);
        let outcome = capture_run(events);
        let (state, action) = capture_next(earlier.state, events.last());
        assert(outcome.actions == earlier.actions.push(action));
        assert(outcome.actions.last() == action);
    }
}

/// Whatever the replies were, no snapshot is taken exactly where the clipboard
/// did not open or its enumeration ended with an error. The error returned is
/// that of the opening, or the thread's own after the clipboard was closed. A
/// snapshot that was taken has a format and a handle in every item.
pub proof fn law_capture_fails_only_with_the_clipboard<E>(events: Seq<CaptureEvent<E>>)
    requires
        capture_run(events).valid,
        capture_run(events).state is Finished,
    ensures
        events.len() > 0,
        capture_run(events).actions.last() is Return,
        capture_run(events).actions.last()->Return_0 is Err <==> has_failure(events),
        capture_run(events).actions.last()->Return_0 matches Err(e) ==> events.last()
            == CaptureEvent::Opened(Err(e)) || events.last() == CaptureEvent::ThreadError(e),
        capture_run(events).actions.last()->Return_0 matches Ok(kept) ==> formats_are_set(kept)
            && handles_are_set(kept),
{
    lemma_capture_failures(events);
}

/// One format of a clipboard: what asking for its data gives, and what
/// duplicating that gives.
pub struct Entry {
    pub format: u32,
    pub data: Option<usize>,
    pub duplicate: usize,
}

/// The replies of a clipboard with these formats, up to the last of them.
pub open spec fn enumeration<E>(entries: Seq<Entry>) -> Seq<CaptureEvent<E>>
    decreases entries.len(),
{
    if entries.len() == 0 {
        seq![CaptureEvent::Start, CaptureEvent::Opened(Ok(()))]
    } else {
        let entry = entries.last();
        let asked = enumeration(entries.drop_last()).push(
            CaptureEvent::Format(entry.format),
        ).push(CaptureEvent::Data(entry.data));
        if entry.data is Some {
            asked.push(CaptureEvent::Duplicated(entry.duplicate))
        } else {
            asked
        }
    }
}

/// The items that can be kept of these formats.
pub open spec fn keepable(entries: Seq<Entry>) -> Seq<(u32, usize)>
    decreases entries.len(),
{
    if entries.len() == 0 {
        Seq::empty()
    } else {
        let before = keepable(entries.drop_last());
        let entry = entries.last();
        if entry.data is Some && entry.duplicate != 0 {
            before.push((entry.format, entry.duplicate))
        } else {
            before
        }
    }
}

proof fn lemma_enumeration<E>(entries: Seq<Entry>)
    requires
        forall|i: int| 0 <= i < entries.len() ==> (#[trigger] entries[i]).format != 0,
    ensures
        capture_run(enumeration::<E>(entries)).valid,
        capture_run(enumeration::<E>(entries)).state == (CaptureState::Enumerating {
            kept: keepable(entries),
        }),
    decreases entries.len(),
{
    if entries.len() == 0 {
        let e0 = Seq::<CaptureEvent<E>>::empty();
        let e1 = e0.push(CaptureEvent::Start);
        let e2 = e1.push(CaptureEvent::Opened(Ok(())));
        lemma_capture_push(e0, CaptureEvent::Start);
        lemma_capture_push(e1, CaptureEvent::Opened(Ok(())));
        assert(e2 =~= enumeration::<E>(entries));
    } else {
        let front = entries.drop_last();
        let entry = entries.last();
        assert forall|i: int| 0 <= i < front.len() implies (#[trigger] front[i]).format != 0 by {
            assert(entries[i].format != 0);
        }
        lemma_enumeration::<E>(front);
        let e0 = enumeration::<E>(front);
        let e1 = e0.push(CaptureEvent::Format(entry.format));
        let e2 = e1.push(CaptureEvent::Data(entry.data));
        assert(entries[entries.len() - 1].format != 0);
        lemma_capture_push(e0, CaptureEvent::Format(entry.format));
        lemma_capture_push(e1, CaptureEvent::Data(entry.data));
        lemma_capture_push(e2, CaptureEvent::Duplicated(entry.duplicate));
    }
}

/// A clipboard that can be opened and enumerated to the end yields a snapshot
/// with every format on it whose data can be had and duplicated, in order.
/// Formats for which that fails do not stop the others.
pub proof fn law_capture_keeps_every_format_it_can<E>(entries: Seq<Entry>)
    requires
        forall|i: int| 0 <= i < entries.len() ==> (#[trigger] entries[i]).format != 0,
    ensures
        ({
            let outcome = capture_run(
                enumeration::<E>(entries).push(CaptureEvent::Format(0)).push(
                    CaptureEvent::LastError(ERROR_SUCCESS),
                ).push(CaptureEvent::Closed),
            );
            &&& outcome.valid
            &&& outcome.state is Finished
            &&& outcome.actions.last() == CaptureAction::<E, Seq<(u32, usize)>>::Return(
                Ok(keepable(entries)),
            )
        }),
{
    lemma_enumeration::<E>(entries);
    let e0 = enumeration::<E>(entries);
    let e1 = e0.push(CaptureEvent::Format(0));
    let e2 = e1.push(CaptureEvent::LastError(ERROR_SUCCESS));
    lemma_capture_push(e0, CaptureEvent::Format(0));
    lemma_capture_push(e1, CaptureEvent::LastError(ERROR_SUCCESS));
    lemma_capture_push(e2, CaptureEvent::Closed);
}

/// The run of the putting back of a snapshot over a sequence of events.
pub open spec fn restore_run(items: Seq<(u32, usize)>, events: Seq<RestoreEvent>) -> Run<
    RestoreState<Seq<(u32, usize)>>,
    RestoreAction,
> {
    run(
        RestoreState::Ready { items },
        |s: RestoreState<Seq<(u32, usize)>>, e: RestoreEvent| restore_accepts(s, e),
        |s: RestoreState<Seq<(u32, usize)>>, e: RestoreEvent| restore_next(s, e),
        events,
    )
}

/// The actions other than trying for the clipboard.
pub open spec fn clipboard_work(actions: Seq<RestoreAction>) -> Seq<RestoreAction>
    decreases actions.len(),
{
    if actions.len() == 0 {
        Seq::empty()
    } else {
        let before = clipboard_work(actions.drop_last());
        match actions.last() {
            RestoreAction::Open { owner } => before,
            RestoreAction::Sleep(_) => before,
            action => before.push(action),
        }
    }
}

/// How often the clipboard was tried for.
pub open spec fn attempts(actions: Seq<RestoreAction>) -> nat
    decreases actions.len(),
{
    if actions.len() == 0 {
        0
    } else {
        attempts(actions.drop_last()) + if actions.last() is Open {
            1nat
        } else {
            0nat
        }
    }
}

/// Putting each of these items on the clipboard.
pub open spec fn puts(items: Seq<(u32, usize)>) -> Seq<RestoreAction> {
    Seq::new(
        items.len(),
        |i: int| RestoreAction::Put { format: items[i].0, handle: items[i].1 },
    )
}

/// Whether some attempt to open the clipboard succeeded.
pub open spec fn was_opened(events: Seq<RestoreEvent>) -> bool {
    events.contains(RestoreEvent::Opened(true))
}

/// What is known of the state after any events that the machine waited for.
proof fn lemma_restore_state(items: Seq<(u32, usize)>, events: Seq<RestoreEvent>)
    requires
        items.len() <= usize::MAX,
        restore_run(items, events).valid,
    ensures
        ({
            let outcome = restore_run(items, events);
            let work = clipboard_work(outcome.actions);
            &&& attempts(outcome.actions) <= OPEN_ATTEMPTS
            &&& match outcome.state {
                RestoreState::Ready { items: kept } => kept == items && work =~= Seq::empty()
                    && !was_opened(events) && attempts(outcome.actions) == 0,
                RestoreState::Opening { items: kept, attempt } => kept == items && work
                    =~= Seq::empty() && !was_opened(events) && attempt == attempts(
                    outcome.actions,
                ),
                RestoreState::Waiting { items: kept, attempt } => kept == items && work
                    =~= Seq::empty() && !was_opened(events) && attempt == attempts(
                    outcome.actions,
                ),
                RestoreState::Emptying { items: kept } => kept == items && was_opened(events)
                    && work =~= seq![RestoreAction::Empty],
                RestoreState::Putting { items: kept, index } => kept == items && was_opened(events)
                    && index < items.len() && work =~= seq![RestoreAction::Empty] + puts(
                    items.take(index + 1),
                ),
                RestoreState::Closing => was_opened(events) && work
                    =~= seq![RestoreAction::Empty] + puts(items) + seq![RestoreAction::Close],
                RestoreState::Finished => work =~= if was_opened(events) {
                    seq![RestoreAction::Empty] + puts(items) + seq![
                        RestoreAction::Close,
                        RestoreAction::Return,
                    ]
                } else {
                    seq![RestoreAction::Return]
                } && (!was_opened(events) ==> attempts(outcome.actions) == OPEN_ATTEMPTS),
            }
        }),
    decreases events.len(),
{
    if events.len() > 0 {
        let before = events.drop_last();
        lemma_restore_state(items, before);
        let earlier = restore_run(items, before);
        let outcome = restore_run(items, events);
        let (state, action) = restore_next(earlier.state, events.last());
        assert(outcome.actions == earlier.actions.push(action));
        assert(outcome.actions.drop_last() =~= earlier.actions);
        assert(events =~= before.push(events.last()));
        assert(events[events.len() - 1] == events.last());
        if was_opened(before) {
            let i = choose|i: int| 0 <= i < before.len() && before[i] == RestoreEvent::Opened(true);
            assert(events[i] == RestoreEvent::Opened(true));
        }
        if was_opened(events) && events.last() != RestoreEvent::Opened(true) {
            let i = choose|i: int| 0 <= i < events.len() && events[i] == RestoreEvent::Opened(true);
            assert(before[i] == RestoreEvent::Opened(true));
        }
        if let RestoreState::Putting { items: kept, index } = earlier.state {
            assert(items.take(index + 1).len() == index + 1);
            if index + 1 == items.len() {
                assert(items.take(index + 1) =~= items);
            }
        }
        assert(puts(items.take(0)) =~= Seq::empty());
        if items.len() == 0 {
            assert(puts(items) =~= Seq::empty());
        }
    } else {
        assert(!was_opened(events));
    }
}

/// Whatever the replies were, putting a snapshot back comes to this: the
/// clipboard is tried for at most [`OPEN_ATTEMPTS`] times; where it opened, it
/// is emptied, every item of the snapshot is put on it once and in order, and
/// it is closed; where it never opened, it is not touched.
pub proof fn law_restore_puts_the_snapshot_back(
    items: Seq<(u32, usize)>,
    events: Seq<RestoreEvent>,
)
    requires
        items.len() <= usize::MAX,
        restore_run(items, events).valid,
        restore_run(items, events).state is Finished,
    ensures
        attempts(restore_run(items, events).actions) <= OPEN_ATTEMPTS,
        was_opened(events) ==> clipboard_work(restore_run(items, events).actions) == seq![
            RestoreAction::Empty,
        ] + puts(items) + seq![RestoreAction::Close, RestoreAction::Return],
        !was_opened(events) ==> attempts(restore_run(items, events).actions) == OPEN_ATTEMPTS
            && clipboard_work(restore_run(items, events).actions) == seq![RestoreAction::Return],
{
    lemma_restore_state(items, events);
}

/// How long the putting back waited, in milliseconds.
pub open spec fn time_slept(actions: Seq<RestoreAction>) -> nat
    decreases actions.len(),
{
    if actions.len() == 0 {
        0
    } else {
        let before = time_slept(actions.drop_last());
        match actions.last() {
            RestoreAction::Sleep(ms) => before + ms as nat,
            _ => before,
        }
    }
}

/// How often the clipboard did not open.
pub open spec fn times_busy(events: Seq<RestoreEvent>) -> nat
    decreases events.len(),
{
    if events.len() == 0 {
        0
    } else {
        times_busy(events.drop_last()) + if events.last() == RestoreEvent::Opened(false) {
            1nat
        } else {
            0nat
        }
    }
}

/// What is known of the waiting after any events that the machine waited for.
proof fn lemma_restore_waits(items: Seq<(u32, usize)>, events: Seq<RestoreEvent>)
    requires
        restore_run(items, events).valid,
    ensures
        ({
            let outcome = restore_run(items, events);
            let busy = times_busy(events);
            &&& time_slept(outcome.actions) == busy * OPEN_RETRY_MS
            &&& busy <= OPEN_ATTEMPTS
            &&& match outcome.state {
                RestoreState::Ready { items } => busy == 0,
                RestoreState::Opening { items, attempt } => attempt == busy + 1 && attempt
                    <= OPEN_ATTEMPTS,
                RestoreState::Waiting { items, attempt } => attempt == busy,
                _ => true,
            }
        }),
    decreases events.len(),
{
    if events.len() > 0 {
        let before = events.drop_last();
        lemma_restore_waits(items, before);
        let earlier = restore_run(items, before);
        let outcome = restore_run(items, events);
        let (state, action) = restore_next(earlier.state, events.last());
        assert(outcome.actions == earlier.actions.push(action));
        assert(outcome.actions.drop_last() =~= earlier.actions);
    }
}

/// The putting back waits a little each time that the clipboard does not open,
/// and at no other time, so that it never waits longer than all of its
/// attempts take.
pub proof fn law_restore_waits_for_a_busy_clipboard(
    items: Seq<(u32, usize)>,
    events: Seq<RestoreEvent>,
)
    requires
        restore_run(items, events).valid,
    ensures
        time_slept(restore_run(items, events).actions) == times_busy(events) * OPEN_RETRY_MS,
        time_slept(restore_run(items, events).actions) <= OPEN_ATTEMPTS * OPEN_RETRY_MS,
{
    lemma_restore_waits(items, events);
}

/// What is put back is what was on the clipboard: a snapshot of a clipboard,
/// put back after the clipboard opened, puts every format that could be kept
/// back, in the order in which the clipboard had them, with its own data.
pub proof fn law_restore_undoes_capture<E>(entries: Seq<Entry>, events: Seq<RestoreEvent>)
    requires
        forall|i: int| 0 <= i < entries.len() ==> (#[trigger] entries[i]).format != 0,
        keepable(entries).len() <= usize::MAX,
        restore_run(keepable(entries), events).valid,
        restore_run(keepable(entries), events).state is Finished,
        was_opened(events),
    ensures
        capture_run(
            enumeration::<E>(entries).push(CaptureEvent::Format(0)).push(
                CaptureEvent::LastError(ERROR_SUCCESS),
            ).push(CaptureEvent::Closed),
        ).actions.last() == CaptureAction::<E, Seq<(u32, usize)>>::Return(Ok(keepable(entries))),
        clipboard_work(restore_run(keepable(entries), events).actions) == seq![
            RestoreAction::Empty,
        ] + puts(keepable(entries)) + seq![RestoreAction::Close, RestoreAction::Return],
{
    law_capture_keeps_every_format_it_can::<E>(entries);
    law_restore_puts_the_snapshot_back(keepable(entries), events);
}

/// What was asked for last, going by the state.
proof fn lemma_capture_asked<E>(events: Seq<CaptureEvent<E>>)
    requires
        capture_run(events).valid,
    ensures
        ({
            let outcome = capture_run(events);
            let asked = outcome.actions.last();
            let n = events.len();
            match outcome.state {
                CaptureState::Ready => n == 0,
                CaptureState::Opening => asked is Open,
                CaptureState::Enumerating { kept } => asked is NextFormat,
                CaptureState::Checking { kept } => asked is LastError,
                CaptureState::Fetching { format, kept } => asked is Data && n > 0 && events[n - 1]
                    == CaptureEvent::<E>::Format(format),
                CaptureState::Duplicating { format, kept } => asked is Duplicate && n > 1
                    && events[n - 2] == CaptureEvent::<E>::Format(format),
                CaptureState::Closing { kept } => asked is Close && n > 0 && events[n - 1]
                    == CaptureEvent::<E>::LastError(ERROR_SUCCESS),
                CaptureState::Abandoning => asked is Close && n > 0 && events[n - 1] is LastError
                    && events[n - 1]->LastError_0 != ERROR_SUCCESS,
                CaptureState::Failing => asked is ThreadError,
                CaptureState::Finished => asked is Return,
            }
        }),
    decreases events.len(),
{
    if events.len() > 0 {
        let before = events.drop_last();
        lemma_capture_asked(before);
        let earlier = capture_run(before);
        let outcome = capture_run(events);
        let (state, action) = capture_next(earlier.state, events.last());
        assert(outcome.actions == earlier.actions.push(action));
        assert(forall|i: int| 0 <= i < before.len() ==> #[trigger] events[i] == before[i]);
        assert(events[events.len() - 1] == events.last());
    }
}

/// What each reply leads to, in every run. The clipboard is opened for no
/// window, and the enumeration begins before the first format. The data of
/// every format is asked for, all data that there is is duplicated, and the
/// enumeration goes on after the format whether or not that went well. Where no
/// format follows, the clipboard is closed; then the duplicates are returned,
/// or the thread's error where the enumeration had ended with one.
pub proof fn law_capture_goes_step_by_step<E>(events: Seq<CaptureEvent<E>>)
    requires
        capture_run(events).valid,
        events.len() > 0,
    ensures
        ({
            let action = capture_run(events).actions.last();
            let n = events.len();
            match events.last() {
                CaptureEvent::Start => events.len() == 1 && action == (CaptureAction::<
                    E,
                    Seq<(u32, usize)>,
                >::Open { owner: None }),
                CaptureEvent::Opened(Ok(_)) => action == CaptureAction::<
                    E,
                    Seq<(u32, usize)>,
                >::NextFormat(0),
                CaptureEvent::Opened(Err(e)) => action == CaptureAction::<
                    E,
                    Seq<(u32, usize)>,
                >::Return(Err(e)),
                CaptureEvent::Format(format) => if format == 0 {
                    action is LastError
                } else {
                    action == CaptureAction::<E, Seq<(u32, usize)>>::Data(format)
                },
                CaptureEvent::LastError(_) => action is Close,
                CaptureEvent::Data(Some(handle)) => {
                    &&& events[n - 2] matches CaptureEvent::Format(format)
                    &&& action is Duplicate
                    &&& action->handle == handle
                    &&& action->Duplicate_format as int == format as int % 0x1_0000
                    &&& action->flags == DEFAULT_MEMORY
                },
                CaptureEvent::Data(None) => events[n - 2] matches CaptureEvent::Format(format)
                    && action == CaptureAction::<E, Seq<(u32, usize)>>::NextFormat(format),
                CaptureEvent::Duplicated(_) => events[n - 3] matches CaptureEvent::Format(format)
                    && action == CaptureAction::<E, Seq<(u32, usize)>>::NextFormat(format),
                CaptureEvent::Closed => if events[n - 2] != CaptureEvent::<E>::LastError(
                    ERROR_SUCCESS,
                ) {
                    action is ThreadError
                } else {
                    action == CaptureAction::<E, Seq<(u32, usize)>>::Return(Ok(duplicates(events)))
                },
                CaptureEvent::ThreadError(e) => action == CaptureAction::<
                    E,
                    Seq<(u32, usize)>,
                >::Return(Err(e)),
            }
        }),
{
    let before = events.drop_last();
    lemma_capture_asked(before);
    lemma_capture_state(before);
    assert(forall|i: int| 0 <= i < before.len() ==> #[trigger] events[i] == before[i]);
    let earlier = capture_run(before);
    let outcome = capture_run(events);
    let (state, action) = capture_next(earlier.state, events.last());
    assert(outcome.actions == earlier.actions.push(action));
    assert(outcome.actions.last() == action);
}

/// The taking of a snapshot takes every reply to what it asked for last, and
/// nothing else. Once it has returned it takes nothing any more.
pub proof fn law_capture_takes_every_reply<E>(events: Seq<CaptureEvent<E>>, event: CaptureEvent<E>)
    requires
        capture_run(events).valid,
    ensures
        capture_run(events.push(event)).valid <==> if events.len() == 0 {
            event is Start
        } else {
            match capture_run(events).actions.last() {
                CaptureAction::Open { .. } => event is Opened,
                CaptureAction::NextFormat(_) => event is Format,
                CaptureAction::LastError => event is LastError,
                CaptureAction::Data(_) => event is Data,
                CaptureAction::Duplicate { .. } => event is Duplicated,
                CaptureAction::Close => event is Closed,
                CaptureAction::ThreadError => event is ThreadError,
                CaptureAction::Return(_) => false,
            }
        },
{
    lemma_capture_asked(events);
    assert(events.push(event).drop_last() =~= events);
}

/// How many items were put on the clipboard.
pub open spec fn times_put(actions: Seq<RestoreAction>) -> nat
    decreases actions.len(),
{
    if actions.len() == 0 {
        0
    } else {
        times_put(actions.drop_last()) + if actions.last() is Put {
            1nat
        } else {
            0nat
        }
    }
}

/// What was asked for last, going by the state.
proof fn lemma_restore_asked(items: Seq<(u32, usize)>, events: Seq<RestoreEvent>)
    requires
        items.len() <= usize::MAX,
        restore_run(items, events).valid,
    ensures
        ({
            let outcome = restore_run(items, events);
            let asked = outcome.actions.last();
            let count = times_put(outcome.actions);
            match outcome.state {
                RestoreState::Ready { items: kept } => events.len() == 0 && kept == items && count
                    == 0,
                RestoreState::Opening { items: kept, attempt } => asked is Open && kept == items
                    && count == 0 && 1 <= attempt <= OPEN_ATTEMPTS && events.len() == 2 * attempt
                    - 1,
                RestoreState::Waiting { items: kept, attempt } => asked is Sleep && kept == items
                    && count == 0 && 1 <= attempt <= OPEN_ATTEMPTS && events.len() == 2 * attempt,
                RestoreState::Emptying { items: kept } => asked is Empty && kept == items && count
                    == 0,
                RestoreState::Putting { items: kept, index } => asked is Put && kept == items
                    && count == index + 1 && index < items.len(),
                RestoreState::Closing => asked is Close,
                RestoreState::Finished => asked is Return,
            }
        }),
    decreases events.len(),
{
    if events.len() > 0 {
        let before = events.drop_last();
        lemma_restore_asked(items, before);
        let earlier = restore_run(items, before);
        let outcome = restore_run(items, events);
        let (state, action) = restore_next(earlier.state, events.last());
        assert(outcome.actions == earlier.actions.push(action));
        assert(outcome.actions.drop_last() =~= earlier.actions);
    }
}

/// What each reply leads to, in every run. The clipboard is tried for again
/// after each failure but the last, with a wait before it. As soon as it is
/// open it is emptied, whatever the snapshot holds. Then the items are put on
/// it one after the other, the first one that was not put yet being the next,
/// and it is closed once there is none left.
pub proof fn law_restore_goes_step_by_step(items: Seq<(u32, usize)>, events: Seq<RestoreEvent>)
    requires
        items.len() <= usize::MAX,
        restore_run(items, events).valid,
        events.len() > 0,
    ensures
        ({
            let asked = restore_run(items, events.drop_last()).actions;
            let action = restore_run(items, events).actions.last();
            match events.last() {
                RestoreEvent::Start => events.len() == 1 && action == (RestoreAction::Open {
                    owner: None,
                }),
                RestoreEvent::Opened(opened) => if opened {
                    action is Empty
                } else {
                    action == RestoreAction::Sleep(OPEN_RETRY_MS)
                },
                RestoreEvent::Done => match asked.last() {
                    RestoreAction::Sleep(_) => if events.len() < 1 + 2 * OPEN_ATTEMPTS {
                        action == (RestoreAction::Open { owner: None })
                    } else {
                        action is Return
                    },
                    RestoreAction::Close => action is Return,
                    _ => {
                        let count = times_put(asked);
                        &&& asked.last() is Empty || asked.last() is Put
                        &&& if count < items.len() {
                            action == (RestoreAction::Put {
                                format: items[count as int].0,
                                handle: items[count as int].1,
                            })
                        } else {
                            action is Close
                        }
                    },
                },
            }
        }),
{
    let before = events.drop_last();
    lemma_restore_asked(items, before);
    let earlier = restore_run(items, before);
    let outcome = restore_run(items, events);
    let (state, action) = restore_next(earlier.state, events.last());
    assert(outcome.actions == earlier.actions.push(action));
    assert(outcome.actions.last() == action);
}

/// The putting back of a snapshot takes every reply to what it asked for last,
/// and nothing else. Once it has returned it takes nothing any more.
pub proof fn law_restore_takes_every_reply(
    items: Seq<(u32, usize)>,
    events: Seq<RestoreEvent>,
    event: RestoreEvent,
)
    requires
        items.len() <= usize::MAX,
        restore_run(items, events).valid,
    ensures
        restore_run(items, events.push(event)).valid <==> if events.len() == 0 {
            event is Start
        } else {
            match restore_run(items, events).actions.last() {
                RestoreAction::Open { .. } => event is Opened,
                RestoreAction::Return => false,
                _ => event is Done,
            }
        },
{
    lemma_restore_asked(items, events);
    assert(events.push(event).drop_last() =~= events);
}

/// The model of a request, and of a snapshot that is to be put back, leaves
/// nothing of them out: snapshots are seen item by item, and everything else as
/// it is.
pub proof fn law_snapshots_are_seen_whole<E>(action: CaptureAction<E, ClipboardSnapshot>, snapshot: ClipboardSnapshot)
    ensures
        CaptureState::<ClipboardSnapshot>::Ready@ is Ready,
        (RestoreState::Ready { items: snapshot })@ == (RestoreState::Ready {
            items: snapshot.items@,
        }),
        match action {
            CaptureAction::Open { owner } => action@ == (CaptureAction::<
                E,
                Seq<(u32, usize)>,
            >::Open { owner }),
            CaptureAction::NextFormat(format) => action@ == CaptureAction::<
                E,
                Seq<(u32, usize)>,
            >::NextFormat(format),
            CaptureAction::LastError => action@ is LastError,
            CaptureAction::Data(format) => action@ == CaptureAction::<
                E,
                Seq<(u32, usize)>,
            >::Data(format),
            CaptureAction::Duplicate { handle, format, flags } => action@ == (CaptureAction::<
                E,
                Seq<(u32, usize)>,
            >::Duplicate { handle, format, flags }),
            CaptureAction::Close => action@ is Close,
            CaptureAction::ThreadError => action@ is ThreadError,
            CaptureAction::Return(Ok(taken)) => action@ == CaptureAction::<
                E,
                Seq<(u32, usize)>,
            >::Return(Ok(taken.items@)),
            CaptureAction::Return(Err(e)) => action@ == CaptureAction::<
                E,
                Seq<(u32, usize)>,
            >::Return(Err(e)),
        },
{
}

/// A step can be made for every reply that is waited for, and it is the one that
/// the runs are made of.
pub proof fn law_capture_is_made_of_steps<E>(
    state: CaptureState<ClipboardSnapshot>,
    event: CaptureEvent<E>,
    result: (CaptureState<ClipboardSnapshot>, CaptureAction<E, ClipboardSnapshot>),
)
    requires
        capture_accepts(state@, event),
    ensures
        call_requires(ClipboardSnapshot::capture::<E>, (state, event)),
        call_ensures(ClipboardSnapshot::capture::<E>, (state, event), result) ==> (result.0@, result.1@) == capture_next(
            state@,
            event,
        ),
{
}

/// A step can be made for every reply that is waited for, and it is the one that
/// the runs are made of.
pub proof fn law_restore_is_made_of_steps(
    state: RestoreState<ClipboardSnapshot>,
    event: RestoreEvent,
    result: (RestoreState<ClipboardSnapshot>, RestoreAction),
)
    requires
        restore_accepts(state@, event),
    ensures
        call_requires(ClipboardSnapshot::restore, (state, event)),
        call_ensures(ClipboardSnapshot::restore, (state, event), result) ==> (result.0@, result.1) == restore_next(
            state@,
            event,
        ),
{
}

/// Every format of a clipboard counts by itself, whatever stands before it and
/// after it: it is kept, with its duplicate, exactly where its data could be
/// had and duplicated.
pub proof fn law_every_format_counts_by_itself(before: Seq<Entry>, entry: Entry, after: Seq<Entry>)
    ensures
        keepable(before + seq![entry] + after) == keepable(before) + (if entry.data is Some
            && entry.duplicate != 0 {
            seq![(entry.format, entry.duplicate)]
        } else {
            Seq::empty()
        }) + keepable(after),
    decreases after.len(),
{
    let all = before + seq![entry] + after;
    if after.len() == 0 {
        assert(all.drop_last() =~= before);
        assert(all.last() == entry);
        assert(keepable(after) =~= Seq::empty());
        if entry.data is Some && entry.duplicate != 0 {
            assert(keepable(all) =~= keepable(before) + seq![(entry.format, entry.duplicate)]
                + keepable(after));
        }
    } else {
        law_every_format_counts_by_itself(before, entry, after.drop_last());
        assert(all.drop_last() =~= before + seq![entry] + after.drop_last());
        assert(all.last() == after.last());
        let front = keepable(before) + (if entry.data is Some && entry.duplicate != 0 {
            seq![(entry.format, entry.duplicate)]
        } else {
            Seq::empty()
        });
        assert(keepable(all) =~= front + keepable(after));
    }
}

} // verus!
