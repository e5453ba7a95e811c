//! Reading the text on the clipboard.

use crate::machine::{lemma_run_push, run, Run};
use crate::text::text_result;
use crate::utf16::{
    decode_utf16_lossy, law_decoding_gives_back_what_was_encoded, lemma_zero_unit_is_nul, utf16,
    utf16_lossy,
};
use vstd::prelude::*;

verus! {

/// The clipboard format of UTF-16 text.
pub const CF_UNICODETEXT: u32 = 13;

/// How far the reading has come. `U` is the type of the units that were read
/// so far, and `T` that of the text.
#[derive(Debug, PartialEq, Eq)]
pub enum ReadState<U, T> {
    /// Nothing has been asked for.
    Ready,
    /// Waiting for the clipboard.
    Opening,
    /// Waiting for the data.
    Fetching,
    /// Waiting for the memory behind `handle`.
    Locking { handle: usize },
    /// Waiting for the unit that follows `units`.
    Scanning { handle: usize, units: U },
    /// Waiting for the memory to be given up.
    Unlocking { text: T },
    /// Waiting for the clipboard to close.
    Closing { text: T },
    /// The result has been returned.
    Finished,
}

/// The replies that the reading waits for.
#[derive(Debug, PartialEq, Eq)]
pub enum ReadEvent<E> {
    /// The reading begins.
    Start,
    /// The clipboard is open, or could not be opened.
    Opened(Result<(), E>),
    /// The handle to the data, which may be 0.
    Data(Result<usize, E>),
    /// The address of the memory; 0 where it could not be had.
    Locked(usize),
    /// The unit that was asked for.
    Unit(u16),
    /// What was asked for has been tried; how it went does not matter.
    Done,
}

/// What the reading asks for.
#[derive(Debug, PartialEq, Eq)]
pub enum ReadAction<E, T> {
    /// Open the clipboard for this window, or for none.
    Open { owner: Option<usize> },
    /// Get the data in this format.
    Data(u32),
    /// Lock the memory behind this handle.
    Lock(usize),
    /// Read the unit at this index of the memory.
    Unit(usize),
    /// Unlock the memory behind this handle.
    Unlock(usize),
    /// Close the clipboard.
    Close,
    /// Return this result.
    Return(Result<T, E>),
}

impl View for ReadState<Vec<u16>, String> {
    type V = ReadState<Seq<u16>, Seq<char>>;

    open spec fn view(&self) -> ReadState<Seq<u16>, Seq<char>> {
        match *self {
            ReadState::Ready => ReadState::Ready,
            ReadState::Opening => ReadState::Opening,
            ReadState::Fetching => ReadState::Fetching,
            ReadState::Locking { handle } => ReadState::Locking { handle },
            ReadState::Scanning { handle, units } => ReadState::Scanning { handle, units: units@ },
            ReadState::Unlocking { text } => ReadState::Unlocking { text: text@ },
            ReadState::Closing { text } => ReadState::Closing { text: text@ },
            ReadState::Finished => ReadState::Finished,
        }
    }
}

impl<E> View for ReadAction<E, String> {
    type V = ReadAction<E, Seq<char>>;

    open spec fn view(&self) -> ReadAction<E, Seq<char>> {
        match *self {
            ReadAction::Open { owner } => ReadAction::Open { owner },
            ReadAction::Data(format) => ReadAction::Data(format),
            ReadAction::Lock(handle) => ReadAction::Lock(handle),
            ReadAction::Unit(index) => ReadAction::Unit(index),
            ReadAction::Unlock(handle) => ReadAction::Unlock(handle),
            ReadAction::Close => ReadAction::Close,
            ReadAction::Return(r) => ReadAction::Return(text_result(r)),
        }
    }
}

/// Whether an event is one that the state waits for.
pub open spec fn read_accepts<E>(
    state: ReadState<Seq<u16>, Seq<char>>,
    event: ReadEvent<E>,
) -> bool {
    match state {
        ReadState::Ready => event is Start,
        ReadState::Opening => event is Opened,
        ReadState::Fetching => event is Data,
        ReadState::Locking { handle } => event is Locked,
        ReadState::Scanning { handle, units } => event is Unit,
        ReadState::Unlocking { text } => event is Done,
        ReadState::Closing { text } => event is Done,
        ReadState::Finished => false,
    }
}

/// What an event makes of the state, and what is asked for next.
///
/// The units are read up to the first zero, and decoded. Data or memory that
/// is not there makes an empty text. Where the data cannot be had at all, that
/// error is returned at once.
pub open spec fn read_next<E>(state: ReadState<Seq<u16>, Seq<char>>, event: ReadEvent<E>) -> (
    ReadState<Seq<u16>, Seq<char>>,
    ReadAction<E, Seq<char>>,
) {
    match state {
        ReadState::Ready => (ReadState::Opening, ReadAction::Open { owner: None }),
        ReadState::Opening => match event->Opened_0 {
            Ok(_) => (ReadState::Fetching, ReadAction::Data(CF_UNICODETEXT)),
            Err(e) => (ReadState::Finished, ReadAction::Return(Err(e))),
        },
        ReadState::Fetching => match event->Data_0 {
            Ok(handle) => if handle != 0 {
                (ReadState::Locking { handle }, ReadAction::Lock(handle))
            } else {
                (ReadState::Closing { text: Seq::empty() }, ReadAction::Close)
            },
            Err(e) => (ReadState::Finished, ReadAction::Return(Err(e))),
        },
        ReadState::Locking { handle } => if event->Locked_0 != 0 {
            (ReadState::Scanning { handle, units: Seq::empty() }, ReadAction::Unit(0))
        } else {
            (ReadState::Closing { text: Seq::empty() }, ReadAction::Close)
        },
        ReadState::Scanning { handle, units } => if event->Unit_0 != 0 {
            (
                ReadState::Scanning { handle, units: units.push(event->Unit_0) },
                ReadAction::Unit((units.len() + 1) as usize),
            )
        } else {
            (ReadState::Unlocking { text: utf16_lossy(units) }, ReadAction::Unlock(handle))
        },
        ReadState::Unlocking { text } => (ReadState::Closing { text }, ReadAction::Close),
        ReadState::Closing { text } => (ReadState::Finished, ReadAction::Return(Ok(text))),
        ReadState::Finished => (state, ReadAction::Close),
    }
}

/// One step of reading the text on the clipboard.
pub fn read_clipboard_unicode_text<E>(
    state: ReadState<Vec<u16>, String>,
    event: ReadEvent<E>,
) -> (r: (ReadState<Vec<u16>, String>, ReadAction<E, String>))
    requires
        read_accepts(state@, event),
    ensures
        (r.0@, r.1@) == read_next(state@, event),
{
    match (state, event) {
        (ReadState::Ready, _) => (ReadState::Opening, ReadAction::Open { owner: None }),
        (ReadState::Opening, ReadEvent::Opened(Ok(()))) => (
            ReadState::Fetching,
            ReadAction::Data(CF_UNICODETEXT),
        ),
        (ReadState::Opening, ReadEvent::Opened(Err(e))) => (
            ReadState::Finished,
            ReadAction::Return(Err(e)),
        ),
        (ReadState::Fetching, ReadEvent::Data(Ok(handle))) => if handle != 0 {
            (ReadState::Locking { handle }, ReadAction::Lock(handle))
        } else {
            (ReadState::Closing { text: String::new() }, ReadAction::Close)
        },
        (ReadState::Fetching, ReadEvent::Data(Err(e))) => (
            ReadState::Finished,
            ReadAction::Return(Err(e)),
        ),
        (ReadState::Locking { handle }, ReadEvent::Locked(address)) => if address != 0 {
            (ReadState::Scanning { handle, units: Vec::new() }, ReadAction::Unit(0))
        } else {
            (ReadState::Closing { text: String::new() }, ReadAction::Close)
        },
        (ReadState::Scanning { handle, units }, ReadEvent::Unit(unit)) => if unit != 0 {
            let mut units = units;
            units.push(unit);
            let index: usize = units.len();
            (ReadState::Scanning { handle, units }, ReadAction::Unit(index))
        } else {
            let text = decode_utf16_lossy(units.as_slice());
            (ReadState::Unlocking { text }, ReadAction::Unlock(handle))
        },
        (ReadState::Unlocking { text }, _) => (ReadState::Closing { text }, ReadAction::Close),
        (ReadState::Closing { text }, _) => (ReadState::Finished, ReadAction::Return(Ok(text))),
        _ => vstd::pervasive::unreached(),
    }
}

/// The run of the reading over a sequence of events.
pub open spec fn read_run<E>(events: Seq<ReadEvent<E>>) -> Run<
    ReadState<Seq<u16>, Seq<char>>,
    ReadAction<E, Seq<char>>,
> {
    run(
        ReadState::Ready,
        |s: ReadState<Seq<u16>, Seq<char>>, e: ReadEvent<E>| read_accepts(s, e),
        |s: ReadState<Seq<u16>, Seq<char>>, e: ReadEvent<E>| read_next(s, e),
        events,
    )
}

proof fn lemma_read_push<E>(events: Seq<ReadEvent<E>>, event: ReadEvent<E>)
    ensures
        ({
            let before = read_run(events);
            let after = read_run(events.push(event));
            &&& after.valid == (before.valid && read_accepts(before.state, event))
            &&& after.state == read_next(before.state, event).0
            &&& after.actions == before.actions.push(read_next(before.state, event).1)
        }),
{
    lemma_run_push(
        ReadState::Ready,
        |s: ReadState<Seq<u16>, Seq<char>>, e: ReadEvent<E>| read_accepts(s, e),
        |s: ReadState<Seq<u16>, Seq<char>>, e: ReadEvent<E>| read_next(s, e),
        events,
        event,
    );
}

/// The replies of a clipboard that holds text at `address` behind `handle`,
/// up to the last of the given units.
pub open spec fn unit_replies<E>(handle: usize, address: usize, units: Seq<u16>) -> Seq<
    ReadEvent<E>,
>
    decreases units.len(),
{
    if units.len() == 0 {
        seq![
            ReadEvent::Start,
            ReadEvent::Opened(Ok(())),
            ReadEvent::Data(Ok(handle)),
            ReadEvent::Locked(address),
        ]
    } else {
        unit_replies(handle, address, units.drop_last()).push(ReadEvent::Unit(units.last()))
    }
}

proof fn lemma_units_are_read<E>(handle: usize, address: usize, units: Seq<u16>)
    requires
        handle != 0,
        address != 0,
        units.len() < usize::MAX,
        !units.contains(0),
    ensures
        ({
            let outcome = read_run(unit_replies::<E>(handle, address, units));
            &&& outcome.valid
            &&& outcome.state == (ReadState::<Seq<u16>, Seq<char>>::Scanning { handle, units })
            &&& outcome.actions.len() == units.len() + 4
            &&& forall|i: int|
                0 <= i <= units.len() ==> #[trigger] outcome.actions[3 + i] == ReadAction::<
                    E,
                    Seq<char>,
                >::Unit(i as usize)
        }),
    decreases units.len(),
{
    let all = unit_replies::<E>(handle, address, units);
    if units.len() == 0 {
        let e0 = Seq::<ReadEvent<E>>::empty();
        let e1 = e0.push(all[0]);
        let e2 = e1.push(all[1]);
        let e3 = e2.push(all[2]);
        let e4 = e3.push(all[3]);
        lemma_read_push(e0, all[0]);
        lemma_read_push(e1, all[1]);
        lemma_read_push(e2, all[2]);
        lemma_read_push(e3, all[3]);
        assert(e4 =~= all);
        assert(units =~= Seq::empty());
    } else {
        let front = units.drop_last();
        assert forall|i: int| 0 <= i < front.len() implies front[i] != 0 by {
            assert(units[i] != 0);
        }
        assert(units[units.len() - 1] != 0);
        lemma_units_are_read::<E>(handle, address, front);
        let before = unit_replies::<E>(handle, address, front);
        lemma_read_push(before, ReadEvent::Unit(units.last()));
        assert(front.push(units.last()) =~= units);
        let earlier = read_run(before);
        let outcome = read_run(all);
        assert forall|i: int| 0 <= i <= units.len() implies #[trigger] outcome.actions[3 + i]
            == ReadAction::<E, Seq<char>>::Unit(i as usize) by {
            if i <= front.len() {
                assert(outcome.actions[3 + i] == earlier.actions[3 + i]);
            }
        }
    }
}

/// What is read of memory that holds some units and a zero after them: the
/// units are asked for one by one up to the zero and no further, the memory is
/// unlocked, the clipboard is closed, and the result is the text that the
/// units spell.
pub proof fn law_text_ends_at_the_first_zero<E>(handle: usize, address: usize, units: Seq<u16>)
    requires
        handle != 0,
        address != 0,
        units.len() < usize::MAX,
        !units.contains(0),
    ensures
        ({
            let outcome = read_run(
                unit_replies::<E>(handle, address, units).push(ReadEvent::Unit(0)).push(
                    ReadEvent::Done,
                ).push(ReadEvent::Done),
            );
            &&& outcome.valid
            &&& outcome.state is Finished
            &&& outcome.actions.len() == units.len() + 7
            &&& forall|i: int|
                0 <= i <= units.len() ==> #[trigger] outcome.actions[3 + i] == ReadAction::<
                    E,
                    Seq<char>,
                >::Unit(i as usize)
            &&& outcome.actions[units.len() as int + 4] == ReadAction::<E, Seq<char>>::Unlock(handle)
            &&& outcome.actions[units.len() as int + 5] is Close
            &&& outcome.actions[units.len() as int + 6] == ReadAction::<E, Seq<char>>::Return(
                Ok(utf16_lossy(units)),
            )
        }),
{
    lemma_units_are_read::<E>(handle, address, units);
    let e0 = unit_replies::<E>(handle, address, units);
    let e1 = e0.push(ReadEvent::Unit(0));
    let e2 = e1.push(ReadEvent::Done);
    let e3 = e2.push(ReadEvent::Done);
    lemma_read_push(e0, ReadEvent::Unit(0));
    lemma_read_push(e1, ReadEvent::Done);
    lemma_read_push(e2, ReadEvent::Done);
    let earlier = read_run(e0);
    let outcome = read_run(e3);
    assert forall|i: int| 0 <= i <= units.len() implies #[trigger] outcome.actions[3 + i]
        == ReadAction::<E, Seq<char>>::Unit(i as usize) by {
        assert(outcome.actions[3 + i] == earlier.actions[3 + i]);
    }
}

/// A text without NUL characters that was put on the clipboard as UTF-16 is
/// read back as it was.
pub proof fn law_clipboard_text_is_read_back<E>(handle: usize, address: usize, text: Seq<char>)
    requires
        handle != 0,
        address != 0,
        utf16(text).len() < usize::MAX,
        !text.contains('\0'),
    ensures
        read_run(
            unit_replies::<E>(handle, address, utf16(text)).push(ReadEvent::Unit(0)).push(
                ReadEvent::Done,
            ).push(ReadEvent::Done),
        ).actions.last() == ReadAction::<E, Seq<char>>::Return(Ok(text)),
{
    lemma_zero_unit_is_nul(text);
    law_text_ends_at_the_first_zero::<E>(handle, address, utf16(text));
    law_decoding_gives_back_what_was_encoded(text);
}

/// How often the clipboard was opened.
pub open spec fn times_opened<E>(events: Seq<ReadEvent<E>>) -> nat
    decreases events.len(),
{
    if events.len() == 0 {
        0
    } else {
        let before = times_opened(events.drop_last());
        match events.last() {
            ReadEvent::Opened(Ok(_)) => before + 1,
            _ => before,
        }
    }
}

/// How often the clipboard was closed.
pub open spec fn times_closed<E, T>(actions: Seq<ReadAction<E, T>>) -> nat
    decreases actions.len(),
{
    if actions.len() == 0 {
        0
    } else {
        times_closed(actions.drop_last()) + if actions.last() is Close {
            1nat
        } else {
            0nat
        }
    }
}

/// The units before the zero that were read, in order.
pub open spec fn units_read<E>(events: Seq<ReadEvent<E>>) -> Seq<u16>
    decreases events.len(),
{
    if events.len() == 0 {
        Seq::empty()
    } else {
        let before = units_read(events.drop_last());
        match events.last() {
            ReadEvent::Unit(unit) => if unit != 0 {
                before.push(unit)
            } else {
                before
            },
            _ => before,
        }
    }
}

/// The error that an event carries, if any.
pub open spec fn read_error<E>(event: ReadEvent<E>) -> Option<E> {
    match event {
        ReadEvent::Opened(Err(e)) => Some(e),
        ReadEvent::Data(Err(e)) => Some(e),
        _ => None,
    }
}

/// What is known of the text after any events that the machine waited for.
proof fn lemma_read_text<E>(events: Seq<ReadEvent<E>>)
    requires
        read_run(events).valid,
    ensures
        ({
            let outcome = read_run(events);
            let units = units_read(events);
            match outcome.state {
                ReadState::Scanning { handle, units: read } => read =~= units,
                ReadState::Unlocking { text } => text == utf16_lossy(units),
                ReadState::Closing { text } => text == utf16_lossy(units),
                ReadState::Finished => {
                    &&& events.len() > 0
                    &&& outcome.actions.last() is Return
                    &&& match outcome.actions.last()->Return_0 {
                        Ok(text) => text == utf16_lossy(units) && read_error(events.last())
                            is None,
                        Err(e) => read_error(events.last()) == Some(e),
                    }
                },
                _ => units =~= Seq::empty(),
            }
        }),
    decreases events.len(),
{
    if events.len() > 0 {
        let before = events.drop_last();
        lemma_read_text(before);
        let earlier = read_run(before);
        let outcome = read_run(events);
        let (state, action) = read_next(earlier.state, events.last());
        assert(outcome.actions == earlier.actions.push(action));
        assert(outcome.actions.last() == action);
        assert(utf16_lossy(Seq::<u16>::empty()) =~= Seq::<char>::empty());
    }
}

/// Whatever the replies were, the result is the error of the last reply where
/// that has one, and otherwise the text that the units before the zero spell.
pub proof fn law_clipboard_text_is_what_was_read<E>(events: Seq<ReadEvent<E>>)
    requires
        read_run(events).valid,
        read_run(events).state is Finished,
    ensures
        events.len() > 0,
        read_run(events).actions.last() == ReadAction::<E, Seq<char>>::Return(
            match read_error(events.last()) {
                Some(e) => Err(e),
                None => Ok(utf16_lossy(units_read(events))),
            },
        ),
{
    lemma_read_text(events);
}

/// What is known of the clipboard after any events that the machine waited
/// for.
proof fn lemma_read_state<E>(events: Seq<ReadEvent<E>>)
    requires
        read_run(events).valid,
    ensures
        ({
            let outcome = read_run(events);
            let opened = times_opened(events);
            let closed = times_closed(outcome.actions);
            match outcome.state {
                ReadState::Ready => opened == 0 && closed == 0,
                ReadState::Opening => opened == 0 && closed == 0,
                ReadState::Closing { text } => opened == 1 && closed == 1,
                ReadState::Finished => {
                    &&& events.len() > 0
                    &&& outcome.actions.last() is Return
                    &&& opened == closed || (events.last() is Data && opened == 1 && closed == 0)
                },
                _ => opened == 1 && closed == 0,
            }
        }),
    decreases events.len(),
{
    if events.len() > 0 {
        let before = events.drop_last();
        lemma_read_state(before);
        let earlier = read_run(before);
        let outcome = read_run(events);
        let (state, action) = read_next(earlier.state, events.last());
        assert(outcome.actions == earlier.actions.push(action));
        assert(outcome.actions.drop_last() =~= earlier.actions);
    }
}

/// Once a result is returned the clipboard has been closed as often as it was
/// opened, unless the reading ended because the data could not be had.
pub proof fn law_reading_closes_the_clipboard<E>(events: Seq<ReadEvent<E>>)
    requires
        read_run(events).valid,
        read_run(events).state is Finished,
        !(events.last() is Data),
    ensures
        times_closed(read_run(events).actions) == times_opened(events),
{
    lemma_read_state(events);
}

/// The handle to the data that was had last; 0 where none was.
pub open spec fn data_handle<E>(events: Seq<ReadEvent<E>>) -> usize
    decreases events.len(),
{
    if events.len() == 0 {
        0
    } else {
        match events.last() {
            ReadEvent::Data(Ok(handle)) => handle,
            _ => data_handle(events.drop_last()),
        }
    }
}

/// The handles whose memory was locked, in order. Memory is locked where its
/// address is not 0.
pub open spec fn locked<E>(events: Seq<ReadEvent<E>>) -> Seq<usize>
    decreases events.len(),
{
    if events.len() == 0 {
        Seq::empty()
    } else {
        let before = locked(events.drop_last());
        match events.last() {
            ReadEvent::Locked(address) => if address != 0 {
                before.push(data_handle(events))
            } else {
                before
            },
            _ => before,
        }
    }
}

/// The handles whose memory was unlocked, in order.
pub open spec fn unlocked<E, T>(actions: Seq<ReadAction<E, T>>) -> Seq<usize>
    decreases actions.len(),
{
    if actions.len() == 0 {
        Seq::empty()
    } else {
        let before = unlocked(actions.drop_last());
        match actions.last() {
            ReadAction::Unlock(handle) => before.push(handle),
            _ => before,
        }
    }
}

/// What is known of the memory after any events that the machine waited for.
proof fn lemma_read_memory<E>(events: Seq<ReadEvent<E>>)
    requires
        read_run(events).valid,
    ensures
        ({
            let outcome = read_run(events);
            let up = locked(events);
            let down = unlocked(outcome.actions);
            match outcome.state {
                ReadState::Locking { handle } => handle == data_handle(events) && up
                    =~= Seq::empty() && down =~= Seq::empty(),
                ReadState::Scanning { handle, units } => up =~= seq![handle] && down
                    =~= Seq::empty(),
                ReadState::Unlocking { text } => up.len() == 1 && down =~= up,
                ReadState::Closing { text } => up.len() <= 1 && down =~= up,
                ReadState::Finished => up.len() <= 1 && down =~= up,
                _ => up =~= Seq::empty() && down =~= Seq::empty(),
            }
        }),
    decreases events.len(),
{
    if events.len() > 0 {
        let before = events.drop_last();
        lemma_read_memory(before);
        let earlier = read_run(before);
        let outcome = read_run(events);
        let (state, action) = read_next(earlier.state, events.last());
        assert(outcome.actions == earlier.actions.push(action));
        assert(outcome.actions.drop_last() =~= earlier.actions);
    }
}

/// Whatever the replies were, once a result is returned the memory that was
/// locked has been unlocked, as often as it was locked, and no other has. It
/// was locked at most once.
pub proof fn law_locked_memory_is_unlocked<E>(events: Seq<ReadEvent<E>>)
    requires
        read_run(events).valid,
        read_run(events).state is Finished,
    ensures
        unlocked(read_run(events).actions) == locked(events),
        locked(events).len() <= 1,
{
    lemma_read_memory(events);
}

/// What was asked for last, going by the state.
proof fn lemma_read_asked<E>(events: Seq<ReadEvent<E>>)
    requires
        read_run(events).valid,
    ensures
        ({
            let outcome = read_run(events);
            let asked = outcome.actions.last();
            let n = events.len();
            match outcome.state {
                ReadState::Ready => n == 0,
                ReadState::Opening => asked is Open && n == 1,
                ReadState::Fetching => asked is Data && n == 2,
                ReadState::Locking { handle } => asked is Lock && n == 3 && events[2] == ReadEvent::<
                    E,
                >::Data(Ok(handle)),
                ReadState::Scanning { handle, units } => asked is Unit && n == 4 + units.len()
                    && events[2] == ReadEvent::<E>::Data(Ok(handle)) && forall|i: int|
                    0 <= i < units.len() ==> events[4 + i] == ReadEvent::<E>::Unit(
                        #[trigger] units[i],
                    ),
                ReadState::Unlocking { text } => asked is Unlock,
                ReadState::Closing { text } => asked is Close,
                ReadState::Finished => asked is Return,
            }
        }),
    decreases events.len(),
{
    if events.len() > 0 {
        let before = events.drop_last();
        lemma_read_asked(before);
        let earlier = read_run(before);
        let outcome = read_run(events);
        let (state, action) = read_next(earlier.state, events.last());
        assert(outcome.actions == earlier.actions.push(action));
        assert(forall|i: int| 0 <= i < before.len() ==> #[trigger] events[i] == before[i]);
        assert(events[events.len() - 1] == events.last());
    }
}

/// What each reply leads to, in every run. The clipboard is opened for no
/// window and asked for Unicode text; data that is there is locked, and memory
/// that is there is read from its start, unit by unit and however long it is,
/// until the first zero. Then the memory is unlocked, the clipboard is closed
/// in every case, and what the units spell is returned.
pub proof fn law_reading_goes_step_by_step<E>(events: Seq<ReadEvent<E>>)
    requires
        read_run(events).valid,
        events.len() > 0,
    ensures
        ({
            let asked = read_run(events.drop_last()).actions.last();
            let action = read_run(events).actions.last();
            match events.last() {
                ReadEvent::Start => events.len() == 1 && action == (ReadAction::<
                    E,
                    Seq<char>,
                >::Open { owner: None }),
                ReadEvent::Opened(Ok(_)) => action == ReadAction::<E, Seq<char>>::Data(
                    CF_UNICODETEXT,
                ),
                ReadEvent::Opened(Err(e)) => action == ReadAction::<E, Seq<char>>::Return(Err(e)),
                ReadEvent::Data(Ok(handle)) => if handle != 0 {
                    action == ReadAction::<E, Seq<char>>::Lock(handle)
                } else {
                    action is Close
                },
                ReadEvent::Data(Err(e)) => action == ReadAction::<E, Seq<char>>::Return(Err(e)),
                ReadEvent::Locked(address) => if address != 0 {
                    action == ReadAction::<E, Seq<char>>::Unit(0)
                } else {
                    action is Close
                },
                ReadEvent::Unit(unit) => if unit != 0 {
                    action == ReadAction::<E, Seq<char>>::Unit((events.len() - 4) as usize)
                } else {
                    events[2] matches ReadEvent::Data(Ok(handle)) && action == ReadAction::<
                        E,
                        Seq<char>,
                    >::Unlock(handle)
                },
                ReadEvent::Done => if asked is Unlock {
                    action is Close
                } else {
                    asked is Close && action == ReadAction::<E, Seq<char>>::Return(
                        Ok(utf16_lossy(units_read(events))),
                    )
                },
            }
        }),
{
    let before = events.drop_last();
    lemma_read_asked(before);
    lemma_read_text(before);
    assert(forall|i: int| 0 <= i < before.len() ==> #[trigger] events[i] == before[i]);
    let earlier = read_run(before);
    let outcome = read_run(events);
    let (state, action) = read_next(earlier.state, events.last());
    assert(outcome.actions == earlier.actions.push(action));
    assert(outcome.actions.last() == action);
}

/// The reading takes every reply to what it asked for last, and nothing else.
/// Once it has returned it takes nothing any more.
pub proof fn law_reading_takes_every_reply<E>(events: Seq<ReadEvent<E>>, event: ReadEvent<E>)
    requires
        read_run(events).valid,
    ensures
        read_run(events.push(event)).valid <==> if events.len() == 0 {
            event is Start
        } else {
            match read_run(events).actions.last() {
                ReadAction::Open { .. } => event is Opened,
                ReadAction::Data(_) => event is Data,
                ReadAction::Lock(_) => event is Locked,
                ReadAction::Unit(_) => event is Unit,
                ReadAction::Unlock(_) => event is Done,
                ReadAction::Close => event is Done,
                ReadAction::Return(_) => false,
            }
        },
{
    lemma_read_asked(events);
    assert(events.push(event).drop_last() =~= events);
}

/// The model of a request leaves nothing of it out: the text is seen character
/// by character, and everything else as it is.
pub proof fn law_readings_are_seen_whole<E>(action: ReadAction<E, String>)
    ensures
        ReadState::<Vec<u16>, String>::Ready@ is Ready,
        match action {
            ReadAction::Open { owner } => action@ == (ReadAction::<E, Seq<char>>::Open { owner }),
            ReadAction::Data(format) => action@ == ReadAction::<E, Seq<char>>::Data(format),
            ReadAction::Lock(handle) => action@ == ReadAction::<E, Seq<char>>::Lock(handle),
            ReadAction::Unit(index) => action@ == ReadAction::<E, Seq<char>>::Unit(index),
            ReadAction::Unlock(handle) => action@ == ReadAction::<E, Seq<char>>::Unlock(handle),
            ReadAction::Close => action@ is Close,
            ReadAction::Return(Ok(text)) => action@ == ReadAction::<E, Seq<char>>::Return(
                Ok(text@),
            ),
            ReadAction::Return(Err(e)) => action@ == ReadAction::<E, Seq<char>>::Return(Err(e)),
        },
{
}

/// A step can be made for every reply that is waited for, and it is the one that
/// the runs are made of.
pub proof fn law_reading_is_made_of_steps<E>(
    state: ReadState<Vec<u16>, String>,
    event: ReadEvent<E>,
    result: (ReadState<Vec<u16>, String>, ReadAction<E, String>),
)
    requires
        read_accepts(state@, event),
    ensures
        call_requires(read_clipboard_unicode_text::<E>, (state, event)),
        call_ensures(read_clipboard_unicode_text::<E>, (state, event), result) ==> (result.0@, result.1@) == read_next(
            state@,
            event,
        ),
{
}

} // verus!
