//! Reading the selected text of the focused element through the accessibility
//! interface, and falling back to the clipboard where that yields nothing.

use crate::machine::{lemma_run_push, run, Run};
use crate::text::{blank, is_blank, joined, text_or_empty, text_result, white_space};
use vstd::prelude::*;
use vstd::string::*;

verus! {

/// The class of the accessibility client.
pub const CUI_AUTOMATION: u128 = 0xff48dba4_60ef_4201_aa87_54103eef594e;

/// The context of an object that lives in the process that makes it.
pub const CLSCTX_INPROC_SERVER: u32 = 1;

/// The identifier of the text pattern of an element.
pub const UIA_TEXT_PATTERN_ID: i32 = 10014;

/// The length limit that asks for the whole text of a range.
pub const WHOLE_TEXT: i32 = -1;

/// How far the reading of the selection has come. `T` is the type of the text
/// that was read so far.
#[derive(Debug, PartialEq, Eq)]
pub enum SelectionState<T> {
    /// Nothing has been asked for.
    Ready,
    /// Waiting for the accessibility client.
    Creating,
    /// Waiting for the focused element.
    Focusing,
    /// Waiting for the element's text pattern.
    FindingPattern,
    /// Waiting whether the pattern is one that holds text.
    Casting,
    /// Waiting for the selected ranges.
    Selecting,
    /// Waiting for the number of ranges.
    Counting,
    /// Waiting for the range at `index`.
    FindingRange { count: i32, index: i32, text: T },
    /// Waiting for the text of the range at `index`.
    ReadingRange { count: i32, index: i32, text: T },
    /// The result has been returned.
    Finished,
}

/// The replies that the reading of the selection waits for.
#[derive(Debug, PartialEq, Eq)]
pub enum SelectionEvent<E, T> {
    /// The reading begins.
    Start,
    /// The object that was asked for is there, or is not.
    Found(Result<(), E>),
    /// Whether the pattern is one that holds text.
    Cast(bool),
    /// The number of selected ranges.
    Count(Result<i32, E>),
    /// The text of a range.
    Text(Result<T, E>),
}

/// What the reading of the selection asks for.
#[derive(Debug, PartialEq, Eq)]
pub enum SelectionAction<E, T> {
    /// Make an accessibility client: an object of this class, in this context.
    CreateAutomation { class: u128, context: u32 },
    /// Get the element that has the focus.
    FocusedElement,
    /// Get the pattern of the element that has this identifier.
    CurrentPattern(i32),
    /// See whether the pattern is one that holds text.
    CastPattern,
    /// Get the selected ranges.
    Selection,
    /// Get the number of ranges.
    Length,
    /// Get the range at this index.
    Element(i32),
    /// Get the text of the range, up to this length.
    Text(i32),
    /// Return this result.
    Return(Result<T, E>),
}

impl View for SelectionState<String> {
    type V = SelectionState<Seq<char>>;

    open spec fn view(&self) -> SelectionState<Seq<char>> {
        match *self {
            SelectionState::Ready => SelectionState::Ready,
            SelectionState::Creating => SelectionState::Creating,
            SelectionState::Focusing => SelectionState::Focusing,
            SelectionState::FindingPattern => SelectionState::FindingPattern,
            SelectionState::Casting => SelectionState::Casting,
            SelectionState::Selecting => SelectionState::Selecting,
            SelectionState::Counting => SelectionState::Counting,
            SelectionState::FindingRange { count, index, text } => SelectionState::FindingRange {
                count,
                index,
                text: text@,
            },
            SelectionState::ReadingRange { count, index, text } => SelectionState::ReadingRange {
                count,
                index,
                text: text@,
            },
            SelectionState::Finished => SelectionState::Finished,
        }
    }
}

impl<E> View for SelectionEvent<E, String> {
    type V = SelectionEvent<E, Seq<char>>;

    open spec fn view(&self) -> SelectionEvent<E, Seq<char>> {
        match *self {
            SelectionEvent::Start => SelectionEvent::Start,
            SelectionEvent::Found(r) => SelectionEvent::Found(r),
            SelectionEvent::Cast(r) => SelectionEvent::Cast(r),
            SelectionEvent::Count(r) => SelectionEvent::Count(r),
            SelectionEvent::Text(r) => SelectionEvent::Text(text_result(r)),
        }
    }
}

impl<E> View for SelectionAction<E, String> {
    type V = SelectionAction<E, Seq<char>>;

    open spec fn view(&self) -> SelectionAction<E, Seq<char>> {
        match *self {
            SelectionAction::CreateAutomation { class, context } =>
            SelectionAction::CreateAutomation { class, context },
            SelectionAction::FocusedElement => SelectionAction::FocusedElement,
            SelectionAction::CurrentPattern(id) => SelectionAction::CurrentPattern(id),
            SelectionAction::CastPattern => SelectionAction::CastPattern,
            SelectionAction::Selection => SelectionAction::Selection,
            SelectionAction::Length => SelectionAction::Length,
            SelectionAction::Element(i) => SelectionAction::Element(i),
            SelectionAction::Text(limit) => SelectionAction::Text(limit),
            SelectionAction::Return(r) => SelectionAction::Return(text_result(r)),
        }
    }
}

/// Whether an event is one that the state waits for.
pub open spec fn selection_accepts<E>(
    state: SelectionState<Seq<char>>,
    event: SelectionEvent<E, Seq<char>>,
) -> bool {
    match state {
        SelectionState::Ready => event is Start,
        SelectionState::Creating => event is Found,
        SelectionState::Focusing => event is Found,
        SelectionState::FindingPattern => event is Found,
        SelectionState::Casting => event is Cast,
        SelectionState::Selecting => event is Found,
        SelectionState::Counting => event is Count,
        SelectionState::FindingRange { count, index, text } => 0 <= index < count
            && event is Found,
        SelectionState::ReadingRange { count, index, text } => 0 <= index < count && event is Text,
        SelectionState::Finished => false,
    }
}

/// The error that an event carries, if any.
pub open spec fn selection_error<E>(event: SelectionEvent<E, Seq<char>>) -> Option<E> {
    match event {
        SelectionEvent::Found(Err(e)) => Some(e),
        SelectionEvent::Count(Err(e)) => Some(e),
        SelectionEvent::Text(Err(e)) => Some(e),
        _ => None,
    }
}

/// The range at `index` is next, or the text is complete where there is none.
pub open spec fn next_range<E>(count: i32, index: int, text: Seq<char>) -> (
    SelectionState<Seq<char>>,
    SelectionAction<E, Seq<char>>,
) {
    if index < count {
        (
            SelectionState::FindingRange { count, index: index as i32, text },
            SelectionAction::Element(index as i32),
        )
    } else {
        (SelectionState::Finished, SelectionAction::Return(Ok(text)))
    }
}

/// What an event makes of the state, and what is asked for next.
///
/// The first error ends the reading and is its result. An element whose
/// pattern holds no text has an empty selection, and so has one without
/// selected ranges.
pub open spec fn selection_next<E>(
    state: SelectionState<Seq<char>>,
    event: SelectionEvent<E, Seq<char>>,
) -> (SelectionState<Seq<char>>, SelectionAction<E, Seq<char>>) {
    match selection_error(event) {
        Some(e) => (SelectionState::Finished, SelectionAction::Return(Err(e))),
        None => match state {
            SelectionState::Ready => (
                SelectionState::Creating,
                SelectionAction::CreateAutomation {
                    class: CUI_AUTOMATION,
                    context: CLSCTX_INPROC_SERVER,
                },
            ),
            SelectionState::Creating => (SelectionState::Focusing, SelectionAction::FocusedElement),
            SelectionState::Focusing => (
                SelectionState::FindingPattern,
                SelectionAction::CurrentPattern(UIA_TEXT_PATTERN_ID),
            ),
            SelectionState::FindingPattern => (
                SelectionState::Casting,
                SelectionAction::CastPattern,
            ),
            SelectionState::Casting => if event->Cast_0 {
                (SelectionState::Selecting, SelectionAction::Selection)
            } else {
                (SelectionState::Finished, SelectionAction::Return(Ok(Seq::empty())))
            },
            SelectionState::Selecting => (SelectionState::Counting, SelectionAction::Length),
            SelectionState::Counting => next_range(event->Count_0->Ok_0, 0, Seq::empty()),
            SelectionState::FindingRange { count, index, text } => (
                SelectionState::ReadingRange { count, index, text },
                SelectionAction::Text(WHOLE_TEXT),
            ),
            SelectionState::ReadingRange { count, index, text } => next_range(
                count,
                index + 1,
                text + event->Text_0->Ok_0,
            ),
            SelectionState::Finished => (state, SelectionAction::Return(Ok(Seq::empty()))),
        },
    }
}

/// Moves on to the range at `index`, or returns the text where there is none.
fn go_to_range<E>(count: i32, index: i32, text: String) -> (r: (
    SelectionState<String>,
    SelectionAction<E, String>,
))
    ensures
        (r.0@, r.1@) == next_range::<E>(count, index as int, text@),
{
    if index < count {
        (SelectionState::FindingRange { count, index, text }, SelectionAction::Element(index))
    } else {
        (SelectionState::Finished, SelectionAction::Return(Ok(text)))
    }
}

/// One step of reading the selected text of the focused element.
pub fn get_focused_selection<E>(
    state: SelectionState<String>,
    event: SelectionEvent<E, String>,
) -> (r: (SelectionState<String>, SelectionAction<E, String>))
    requires
        selection_accepts(state@, event@),
    ensures
        (r.0@, r.1@) == selection_next(state@, event@),
{
    match event {
        SelectionEvent::Start => (
            SelectionState::Creating,
            SelectionAction::CreateAutomation {
                class: CUI_AUTOMATION,
                context: CLSCTX_INPROC_SERVER,
            },
        ),
        SelectionEvent::Found(Err(e)) => (
            SelectionState::Finished,
            SelectionAction::Return(Err(e)),
        ),
        SelectionEvent::Found(Ok(())) => match state {
            SelectionState::Creating => (SelectionState::Focusing, SelectionAction::FocusedElement),
            SelectionState::Focusing => (
                SelectionState::FindingPattern,
                SelectionAction::CurrentPattern(UIA_TEXT_PATTERN_ID),
            ),
            SelectionState::FindingPattern => (
                SelectionState::Casting,
                SelectionAction::CastPattern,
            ),
            SelectionState::Selecting => (SelectionState::Counting, SelectionAction::Length),
            SelectionState::FindingRange { count, index, text } => (
                SelectionState::ReadingRange { count, index, text },
                SelectionAction::Text(WHOLE_TEXT),
            ),
            _ => vstd::pervasive::unreached(),
        },
        SelectionEvent::Cast(true) => (SelectionState::Selecting, SelectionAction::Selection),
        SelectionEvent::Cast(false) => (
            SelectionState::Finished,
            SelectionAction::Return(Ok(String::new())),
        ),
        SelectionEvent::Count(Err(e)) => (
            SelectionState::Finished,
            SelectionAction::Return(Err(e)),
        ),
        SelectionEvent::Count(Ok(count)) => go_to_range(count, 0, String::new()),
        SelectionEvent::Text(Err(e)) => (SelectionState::Finished, SelectionAction::Return(Err(e))),
        SelectionEvent::Text(Ok(part)) => match state {
            SelectionState::ReadingRange { count, index, text } => {
                let mut text = text;
                text.append(part.as_str());
                go_to_range(count, index + 1, text)
            },
            _ => vstd::pervasive::unreached(),
        },
    }
}

/// The run of the reading over a sequence of events.
pub open spec fn selection_run<E>(events: Seq<SelectionEvent<E, Seq<char>>>) -> Run<
    SelectionState<Seq<char>>,
    SelectionAction<E, Seq<char>>,
> {
    run(
        SelectionState::Ready,
        |s: SelectionState<Seq<char>>, e: SelectionEvent<E, Seq<char>>| selection_accepts(s, e),
        |s: SelectionState<Seq<char>>, e: SelectionEvent<E, Seq<char>>| selection_next(s, e),
        events,
    )
}

proof fn lemma_selection_push<E>(
    events: Seq<SelectionEvent<E, Seq<char>>>,
    event: SelectionEvent<E, Seq<char>>,
)
    ensures
        ({
            let before = selection_run(events);
            let after = selection_run(events.push(event));
            &&& after.valid == (before.valid && selection_accepts(before.state, event))
            &&& after.state == selection_next(before.state, event).0
            &&& after.actions == before.actions.push(selection_next(before.state, event).1)
        }),
{
    lemma_run_push(
        SelectionState::Ready,
        |s: SelectionState<Seq<char>>, e: SelectionEvent<E, Seq<char>>| selection_accepts(s, e),
        |s: SelectionState<Seq<char>>, e: SelectionEvent<E, Seq<char>>| selection_next(s, e),
        events,
        event,
    );
}

/// The texts that were read, in the order in which they came.
pub open spec fn texts_read<E>(events: Seq<SelectionEvent<E, Seq<char>>>) -> Seq<Seq<char>>
    decreases events.len(),
{
    if events.len() == 0 {
        Seq::empty()
    } else {
        let before = texts_read(events.drop_last());
        match events.last() {
            SelectionEvent::Text(Ok(text)) => before.push(text),
            _ => before,
        }
    }
}

/// How many ranges there were going by the count; none where there was no
/// count, or one below 0.
pub open spec fn ranges_counted<E>(events: Seq<SelectionEvent<E, Seq<char>>>) -> nat
    decreases events.len(),
{
    if events.len() == 0 {
        0
    } else {
        match events.last() {
            SelectionEvent::Count(Ok(count)) => if count > 0 {
                count as nat
            } else {
                0
            },
            _ => ranges_counted(events.drop_last()),
        }
    }
}

/// What is known of the state after any events that the machine waited for.
proof fn lemma_selection_state<E>(events: Seq<SelectionEvent<E, Seq<char>>>)
    requires
        selection_run(events).valid,
    ensures
        match selection_run(events).state {
            SelectionState::FindingRange { count, index, text } => {
                &&& 0 <= index < count
                &&& ranges_counted(events) == count
                &&& texts_read(events).len() == index
                &&& text == joined(texts_read(events))
            },
            SelectionState::ReadingRange { count, index, text } => {
                &&& 0 <= index < count
                &&& ranges_counted(events) == count
                &&& texts_read(events).len() == index
                &&& text == joined(texts_read(events))
            },
            SelectionState::Finished => {
                &&& events.len() > 0
                &&& selection_run(events).actions.last() is Return
                &&& selection_run(events).actions.last()->Return_0 matches Ok(text) ==> text
                    == joined(texts_read(events)) && texts_read(events).len() == ranges_counted(
                    events,
                ) && selection_error(events.last()) is None
                &&& selection_run(events).actions.last()->Return_0 matches Err(e) ==>
                    selection_error(events.last()) == Some(e)
            },
            _ => texts_read(events).len() == 0 && ranges_counted(events) == 0,
        },
    decreases events.len(),
{
    if events.len() > 0 {
        let before = events.drop_last();
        lemma_selection_state(before);
        if let SelectionEvent::Text(Ok(text)) = events.last() {
            assert(texts_read(before).push(text).drop_last() =~= texts_read(before));
        }
        assert(joined(Seq::<Seq<char>>::empty()) == Seq::<char>::empty());
        if texts_read(before).len() == 0 {
            assert(texts_read(before) =~= Seq::empty());
        }
    }
}

/// Whatever the replies were, the result is the error of the last reply where
/// that has one, and otherwise the texts of the ranges that were read, one
/// after the other; and then as many were read as were counted.
pub proof fn law_selection_is_what_was_read<E>(events: Seq<SelectionEvent<E, Seq<char>>>)
    requires
        selection_run(events).valid,
        selection_run(events).state is Finished,
    ensures
        events.len() > 0,
        selection_run(events).actions.last() == SelectionAction::<E, Seq<char>>::Return(
            match selection_error(events.last()) {
                Some(e) => Err(e),
                None => Ok(joined(texts_read(events))),
            },
        ),
        selection_error(events.last()) is None ==> texts_read(events).len() == ranges_counted(
            events,
        ),
{
    lemma_selection_state(events);
}

/// The replies that lead to the first range of `count`.
pub open spec fn opening_replies<E>(count: i32) -> Seq<SelectionEvent<E, Seq<char>>> {
    seq![
        SelectionEvent::Start,
        SelectionEvent::Found(Ok(())),
        SelectionEvent::Found(Ok(())),
        SelectionEvent::Found(Ok(())),
        SelectionEvent::Cast(true),
        SelectionEvent::Found(Ok(())),
        SelectionEvent::Count(Ok(count)),
    ]
}

/// The replies of an element with `count` ranges, up to the text of the last
/// one in `texts`.
pub open spec fn successful_replies<E>(count: i32, texts: Seq<Seq<char>>) -> Seq<
    SelectionEvent<E, Seq<char>>,
>
    decreases texts.len(),
{
    if texts.len() == 0 {
        opening_replies(count)
    } else {
        successful_replies(count, texts.drop_last()).push(SelectionEvent::Found(Ok(()))).push(
            SelectionEvent::Text(Ok(texts.last())),
        )
    }
}

proof fn lemma_opening<E>(count: i32)
    ensures
        ({
            let outcome = selection_run(opening_replies::<E>(count));
            &&& outcome.valid
            &&& outcome.actions.len() == 7
            &&& (outcome.state, outcome.actions.last()) == next_range::<E>(count, 0, Seq::empty())
        }),
{
    let all = opening_replies::<E>(count);
    let e0 = Seq::<SelectionEvent<E, Seq<char>>>::empty();
    let e1 = e0.push(all[0]);
    let e2 = e1.push(all[1]);
    let e3 = e2.push(all[2]);
    let e4 = e3.push(all[3]);
    let e5 = e4.push(all[4]);
    let e6 = e5.push(all[5]);
    let e7 = e6.push(all[6]);
    lemma_selection_push(e0, all[0]);
    lemma_selection_push(e1, all[1]);
    lemma_selection_push(e2, all[2]);
    lemma_selection_push(e3, all[3]);
    lemma_selection_push(e4, all[4]);
    lemma_selection_push(e5, all[5]);
    lemma_selection_push(e6, all[6]);
    assert(e7 =~= all);
}

/// Where every call succeeds, each selected range is asked for once, in order
/// and for its whole text, and what is returned once the last one was read is
/// all of their texts, one after the other.
pub proof fn law_every_range_is_read<E>(count: i32, texts: Seq<Seq<char>>)
    requires
        texts.len() <= count || texts.len() == 0,
    ensures
        ({
            let outcome = selection_run(successful_replies::<E>(count, texts));
            &&& outcome.valid
            &&& outcome.actions.len() == 7 + 2 * texts.len()
            &&& forall|i: int|
                0 <= i < texts.len() ==> #[trigger] outcome.actions[6 + 2 * i]
                    == SelectionAction::<E, Seq<char>>::Element(i as i32) && outcome.actions[7 + 2
                    * i] == SelectionAction::<E, Seq<char>>::Text(WHOLE_TEXT)
            &&& (outcome.state, outcome.actions.last()) == next_range::<E>(
                count,
                texts.len() as int,
                joined(texts),
            )
        }),
    decreases texts.len(),
{
    if texts.len() == 0 {
        lemma_opening::<E>(count);
        assert(joined(texts) =~= Seq::empty());
    } else {
        let front = texts.drop_last();
        law_every_range_is_read::<E>(count, front);
        let before = successful_replies::<E>(count, front);
        let found = SelectionEvent::<E, Seq<char>>::Found(Ok(()));
        let text = SelectionEvent::<E, Seq<char>>::Text(Ok(texts.last()));
        lemma_selection_push(before, found);
        lemma_selection_push(before.push(found), text);
        let outcome = selection_run(successful_replies::<E>(count, texts));
        let earlier = selection_run(before);
        assert(outcome.actions.len() == earlier.actions.len() + 2);
        assert forall|i: int| 0 <= i < texts.len() implies #[trigger] outcome.actions[6 + 2 * i]
            == SelectionAction::<E, Seq<char>>::Element(i as i32) && outcome.actions[7 + 2 * i]
            == SelectionAction::<E, Seq<char>>::Text(WHOLE_TEXT) by {
            assert(outcome.actions[6 + 2 * i] == earlier.actions[6 + 2 * i]);
            if i < front.len() {
                assert(outcome.actions[7 + 2 * i] == earlier.actions[7 + 2 * i]);
            } else {
                assert(earlier.actions.last() == earlier.actions[6 + 2 * i]);
            }
        }
    }
}

/// The first error ends the reading: it is the result, and nothing is called
/// after it.
pub proof fn law_first_error_ends_the_reading<E>(
    state: SelectionState<Seq<char>>,
    event: SelectionEvent<E, Seq<char>>,
    later: SelectionEvent<E, Seq<char>>,
)
    requires
        selection_error(event) is Some,
    ensures
        selection_next(state, event).1 == SelectionAction::<E, Seq<char>>::Return(
            Err(selection_error(event)->0),
        ),
        !selection_accepts(selection_next(state, event).0, later),
{
}

/// How far the search for a selection has come.
#[derive(Debug, PartialEq, Eq)]
pub enum FallbackState {
    /// Nothing has been asked for.
    Ready,
    /// Waiting for the selection of the focused element.
    Reading,
    /// Waiting for the text that was copied.
    Copying,
    /// The result has been returned.
    Finished,
}

/// The replies that the search for a selection waits for.
#[derive(Debug, PartialEq, Eq)]
pub enum FallbackEvent<E, T> {
    /// The search begins.
    Start,
    /// The selection of the focused element.
    Selection(Result<T, E>),
    /// The text that was copied.
    Copied(Result<T, E>),
}

/// What the search for a selection asks for.
#[derive(Debug, PartialEq, Eq)]
pub enum FallbackAction<E, T> {
    /// Read the selection of the focused element.
    ReadSelection,
    /// Copy the selection through the clipboard, preserving what is on it.
    CopySelection,
    /// Return this result.
    Return(Result<T, E>),
}

impl<E> View for FallbackEvent<E, String> {
    type V = FallbackEvent<E, Seq<char>>;

    open spec fn view(&self) -> FallbackEvent<E, Seq<char>> {
        match *self {
            FallbackEvent::Start => FallbackEvent::Start,
            FallbackEvent::Selection(r) => FallbackEvent::Selection(text_result(r)),
            FallbackEvent::Copied(r) => FallbackEvent::Copied(text_result(r)),
        }
    }
}

impl<E> View for FallbackAction<E, String> {
    type V = FallbackAction<E, Seq<char>>;

    open spec fn view(&self) -> FallbackAction<E, Seq<char>> {
        match *self {
            FallbackAction::ReadSelection => FallbackAction::ReadSelection,
            FallbackAction::CopySelection => FallbackAction::CopySelection,
            FallbackAction::Return(r) => FallbackAction::Return(text_result(r)),
        }
    }
}

/// Whether an event is one that the state waits for.
pub open spec fn fallback_accepts<E>(
    state: FallbackState,
    event: FallbackEvent<E, Seq<char>>,
) -> bool {
    match state {
        FallbackState::Ready => event is Start,
        FallbackState::Reading => event is Selection,
        FallbackState::Copying => event is Copied,
        FallbackState::Finished => false,
    }
}

/// What an event makes of the state, and what is asked for next: a selection
/// with something other than white space in it is the result; an error or a
/// blank one leads to the clipboard, whose result is returned as it is.
pub open spec fn fallback_next<E>(state: FallbackState, event: FallbackEvent<E, Seq<char>>) -> (
    FallbackState,
    FallbackAction<E, Seq<char>>,
) {
    match event {
        FallbackEvent::Start => (FallbackState::Reading, FallbackAction::ReadSelection),
        FallbackEvent::Selection(r) => if blank(text_or_empty(r)) {
            (FallbackState::Copying, FallbackAction::CopySelection)
        } else {
            (FallbackState::Finished, FallbackAction::Return(r))
        },
        FallbackEvent::Copied(r) => (FallbackState::Finished, FallbackAction::Return(r)),
    }
}

/// One step of finding the selected text.
pub fn get_focused_selection_with_fallback_copy<E>(
    state: FallbackState,
    event: FallbackEvent<E, String>,
) -> (r: (FallbackState, FallbackAction<E, String>))
    requires
        fallback_accepts(state, event@),
    ensures
        (r.0, r.1@) == fallback_next(state, event@),
{
    match event {
        FallbackEvent::Start => (FallbackState::Reading, FallbackAction::ReadSelection),
        FallbackEvent::Selection(Ok(text)) => if is_blank(text.as_str()) {
            (FallbackState::Copying, FallbackAction::CopySelection)
        } else {
            (FallbackState::Finished, FallbackAction::Return(Ok(text)))
        },
        FallbackEvent::Selection(Err(_)) => (
            FallbackState::Copying,
            FallbackAction::CopySelection,
        ),
        FallbackEvent::Copied(r) => (FallbackState::Finished, FallbackAction::Return(r)),
    }
}

/// The run of the search over a sequence of events.
pub open spec fn fallback_run<E>(events: Seq<FallbackEvent<E, Seq<char>>>) -> Run<
    FallbackState,
    FallbackAction<E, Seq<char>>,
> {
    run(
        FallbackState::Ready,
        |s: FallbackState, e: FallbackEvent<E, Seq<char>>| fallback_accepts(s, e),
        |s: FallbackState, e: FallbackEvent<E, Seq<char>>| fallback_next(s, e),
        events,
    )
}

proof fn lemma_fallback_push<E>(
    events: Seq<FallbackEvent<E, Seq<char>>>,
    event: FallbackEvent<E, Seq<char>>,
)
    ensures
        ({
            let before = fallback_run(events);
            let after = fallback_run(events.push(event));
            &&& after.valid == (before.valid && fallback_accepts(before.state, event))
            &&& after.state == fallback_next(before.state, event).0
            &&& after.actions == before.actions.push(fallback_next(before.state, event).1)
        }),
{
    lemma_run_push(
        FallbackState::Ready,
        |s: FallbackState, e: FallbackEvent<E, Seq<char>>| fallback_accepts(s, e),
        |s: FallbackState, e: FallbackEvent<E, Seq<char>>| fallback_next(s, e),
        events,
        event,
    );
}

/// The clipboard is left alone where the focused element has a selection that
/// is not blank, and that selection is the result. Otherwise the result is
/// whatever the copy gives.
pub proof fn law_clipboard_is_the_last_resort<E>(
    selection: Result<Seq<char>, E>,
    copied: Result<Seq<char>, E>,
)
    ensures
        !blank(text_or_empty(selection)) ==> {
            let outcome = fallback_run(
                seq![FallbackEvent::Start, FallbackEvent::Selection(selection)],
            );
            &&& outcome.valid
            &&& outcome.state is Finished
            &&& outcome.actions =~= seq![
                FallbackAction::ReadSelection,
                FallbackAction::Return(selection),
            ]
        },
        blank(text_or_empty(selection)) ==> {
            let outcome = fallback_run(
                seq![
                    FallbackEvent::Start,
                    FallbackEvent::Selection(selection),
                    FallbackEvent::Copied(copied),
                ],
            );
            &&& outcome.valid
            &&& outcome.state is Finished
            &&& outcome.actions =~= seq![
                FallbackAction::ReadSelection,
                FallbackAction::CopySelection,
                FallbackAction::Return(copied),
            ]
        },
{
    let e0 = Seq::<FallbackEvent<E, Seq<char>>>::empty();
    let e1 = e0.push(FallbackEvent::Start);
    let e2 = e1.push(FallbackEvent::Selection(selection));
    let e3 = e2.push(FallbackEvent::Copied(copied));
    lemma_fallback_push(e0, FallbackEvent::Start);
    lemma_fallback_push(e1, FallbackEvent::Selection(selection));
    lemma_fallback_push(e2, FallbackEvent::Copied(copied));
    assert(e2 =~= seq![FallbackEvent::Start, FallbackEvent::Selection(selection)]);
    assert(e3 =~= seq![
        FallbackEvent::Start,
        FallbackEvent::Selection(selection),
        FallbackEvent::Copied(copied),
    ]);
}

/// What was asked for last, going by the state.
proof fn lemma_selection_asked<E>(events: Seq<SelectionEvent<E, Seq<char>>>)
    requires
        selection_run(events).valid,
    ensures
        ({
            let outcome = selection_run(events);
            let asked = outcome.actions.last();
            let n = events.len();
            let counted = |count: i32|
                n > 6 && events[6] == SelectionEvent::<E, Seq<char>>::Count(Ok(count));
            match outcome.state {
                SelectionState::Ready => n == 0,
                SelectionState::Creating => asked is CreateAutomation && n == 1,
                SelectionState::Focusing => asked is FocusedElement && n == 2,
                SelectionState::FindingPattern => asked is CurrentPattern && n == 3,
                SelectionState::Casting => asked is CastPattern && n == 4,
                SelectionState::Selecting => asked is Selection && n == 5,
                SelectionState::Counting => asked is Length && n == 6,
                SelectionState::FindingRange { count, index, text } => asked is Element && n == 7
                    + 2 * index && counted(count) && 0 <= index < count,
                SelectionState::ReadingRange { count, index, text } => asked is Text && n == 8 + 2
                    * index && counted(count) && 0 <= index < count,
                SelectionState::Finished => asked is Return,
            }
        }),
    decreases events.len(),
{
    if events.len() > 0 {
        let before = events.drop_last();
        lemma_selection_asked(before);
        let earlier = selection_run(before);
        let outcome = selection_run(events);
        let (state, action) = selection_next(earlier.state, events.last());
        assert(outcome.actions == earlier.actions.push(action));
        assert(forall|i: int| 0 <= i < before.len() ==> #[trigger] events[i] == before[i]);
        assert(events[events.len() - 1] == events.last());
    }
}

/// What each reply leads to, in every run. Every error ends the reading and is
/// its result. The element that has the focus is asked for its text pattern,
/// and the pattern for the selection. However many ranges there are, the first
/// one that was not read yet is the next, and all of its text is asked for;
/// once there is none left, all of the texts are returned.
pub proof fn law_selecting_goes_step_by_step<E>(events: Seq<SelectionEvent<E, Seq<char>>>)
    requires
        selection_run(events).valid,
        events.len() > 0,
    ensures
        ({
            let asked = selection_run(events.drop_last()).actions.last();
            let action = selection_run(events).actions.last();
            let read = (events.len() - 7) / 2;
            match events.last() {
                SelectionEvent::Start => events.len() == 1 && action == (SelectionAction::<
                    E,
                    Seq<char>,
                >::CreateAutomation { class: CUI_AUTOMATION, context: CLSCTX_INPROC_SERVER }),
                SelectionEvent::Found(Err(e)) => action == SelectionAction::<
                    E,
                    Seq<char>,
                >::Return(Err(e)),
                SelectionEvent::Found(Ok(_)) => match asked {
                    SelectionAction::CreateAutomation { .. } => action is FocusedElement,
                    SelectionAction::FocusedElement => action == SelectionAction::<
                        E,
                        Seq<char>,
                    >::CurrentPattern(UIA_TEXT_PATTERN_ID),
                    SelectionAction::CurrentPattern(_) => action is CastPattern,
                    SelectionAction::Selection => action is Length,
                    _ => asked is Element && action == SelectionAction::<E, Seq<char>>::Text(
                        WHOLE_TEXT,
                    ),
                },
                SelectionEvent::Cast(holds_text) => if holds_text {
                    action is Selection
                } else {
                    action == SelectionAction::<E, Seq<char>>::Return(Ok(Seq::empty()))
                },
                SelectionEvent::Count(Err(e)) => action == SelectionAction::<
                    E,
                    Seq<char>,
                >::Return(Err(e)),
                SelectionEvent::Count(Ok(count)) => if count > 0 {
                    action == SelectionAction::<E, Seq<char>>::Element(0)
                } else {
                    action == SelectionAction::<E, Seq<char>>::Return(Ok(Seq::empty()))
                },
                SelectionEvent::Text(Err(e)) => action == SelectionAction::<E, Seq<char>>::Return(
                    Err(e),
                ),
                SelectionEvent::Text(Ok(_)) => {
                    &&& events[6] matches SelectionEvent::Count(Ok(count))
                    &&& if read < count {
                        action is Element && action->Element_0 == read
                    } else {
                        action == SelectionAction::<E, Seq<char>>::Return(
                            Ok(joined(texts_read(events))),
                        )
                    }
                },
            }
        }),
{
    let before = events.drop_last();
    lemma_selection_asked(before);
    lemma_selection_state(events);
    assert(forall|i: int| 0 <= i < before.len() ==> #[trigger] events[i] == before[i]);
    let earlier = selection_run(before);
    let outcome = selection_run(events);
    let (state, action) = selection_next(earlier.state, events.last());
    assert(outcome.actions == earlier.actions.push(action));
    assert(outcome.actions.last() == action);
}

/// The reading takes every reply to what it asked for last, and nothing else.
/// Once it has returned it takes nothing any more.
pub proof fn law_selecting_takes_every_reply<E>(
    events: Seq<SelectionEvent<E, Seq<char>>>,
    event: SelectionEvent<E, Seq<char>>,
)
    requires
        selection_run(events).valid,
    ensures
        selection_run(events.push(event)).valid <==> if events.len() == 0 {
            event is Start
        } else {
            match selection_run(events).actions.last() {
                SelectionAction::CastPattern => event is Cast,
                SelectionAction::Length => event is Count,
                SelectionAction::Text(_) => event is Text,
                SelectionAction::Return(_) => false,
                _ => event is Found,
            }
        },
{
    lemma_selection_asked(events);
    assert(events.push(event).drop_last() =~= events);
}

/// What was asked for last, going by the state.
proof fn lemma_fallback_asked<E>(events: Seq<FallbackEvent<E, Seq<char>>>)
    requires
        fallback_run(events).valid,
    ensures
        match fallback_run(events).state {
            FallbackState::Ready => events.len() == 0,
            FallbackState::Reading => fallback_run(events).actions.last() is ReadSelection,
            FallbackState::Copying => fallback_run(events).actions.last() is CopySelection,
            FallbackState::Finished => fallback_run(events).actions.last() is Return,
        },
    decreases events.len(),
{
    if events.len() > 0 {
        let before = events.drop_last();
        lemma_fallback_asked(before);
        let earlier = fallback_run(before);
        let outcome = fallback_run(events);
        let (state, action) = fallback_next(earlier.state, events.last());
        assert(outcome.actions == earlier.actions.push(action));
    }
}

/// What each reply leads to, in every run. A selection with a single character
/// in it that is no white space is returned, whole and as it is; any other
/// selection, and every error, leads to the clipboard; and what the copying
/// gave is returned as it is.
pub proof fn law_search_goes_step_by_step<E>(events: Seq<FallbackEvent<E, Seq<char>>>)
    requires
        fallback_run(events).valid,
        events.len() > 0,
    ensures
        ({
            let action = fallback_run(events).actions.last();
            match events.last() {
                FallbackEvent::Start => events.len() == 1 && action is ReadSelection,
                FallbackEvent::Selection(Ok(text)) => if exists|i: int|
                    0 <= i < text.len() && !white_space(#[trigger] text[i]) {
                    action == FallbackAction::<E, Seq<char>>::Return(Ok(text))
                } else {
                    action is CopySelection
                },
                FallbackEvent::Selection(Err(_)) => action is CopySelection,
                FallbackEvent::Copied(r) => action == FallbackAction::<E, Seq<char>>::Return(r),
            }
        }),
{
    let before = events.drop_last();
    lemma_fallback_asked(before);
    let earlier = fallback_run(before);
    let outcome = fallback_run(events);
    let (state, action) = fallback_next(earlier.state, events.last());
    assert(outcome.actions == earlier.actions.push(action));
    assert(outcome.actions.last() == action);
}

/// The search takes every reply to what it asked for last, and nothing else.
/// Once it has returned it takes nothing any more.
pub proof fn law_search_takes_every_reply<E>(
    events: Seq<FallbackEvent<E, Seq<char>>>,
    event: FallbackEvent<E, Seq<char>>,
)
    requires
        fallback_run(events).valid,
    ensures
        fallback_run(events.push(event)).valid <==> if events.len() == 0 {
            event is Start
        } else {
            match fallback_run(events).actions.last() {
                FallbackAction::ReadSelection => event is Selection,
                FallbackAction::CopySelection => event is Copied,
                FallbackAction::Return(_) => false,
            }
        },
{
    lemma_fallback_asked(events);
    assert(events.push(event).drop_last() =~= events);
}

/// The model of a reply and of a request leaves nothing of them out: texts are
/// seen character by character, and everything else as it is.
pub proof fn law_selections_are_seen_whole<E>(event: SelectionEvent<E, String>, action: SelectionAction<E, String>)
    ensures
        SelectionState::<String>::Ready@ is Ready,
        match event {
            SelectionEvent::Start => event@ is Start,
            SelectionEvent::Found(r) => event@ == SelectionEvent::<E, Seq<char>>::Found(r),
            SelectionEvent::Cast(r) => event@ == SelectionEvent::<E, Seq<char>>::Cast(r),
            SelectionEvent::Count(r) => event@ == SelectionEvent::<E, Seq<char>>::Count(r),
            SelectionEvent::Text(Ok(text)) => event@ == SelectionEvent::<E, Seq<char>>::Text(
                Ok(text@),
            ),
            SelectionEvent::Text(Err(e)) => event@ == SelectionEvent::<E, Seq<char>>::Text(Err(e)),
        },
        match action {
            SelectionAction::CreateAutomation { class, context } => action@ == (SelectionAction::<
                E,
                Seq<char>,
            >::CreateAutomation { class, context }),
            SelectionAction::FocusedElement => action@ is FocusedElement,
            SelectionAction::CurrentPattern(id) => action@ == SelectionAction::<
                E,
                Seq<char>,
            >::CurrentPattern(id),
            SelectionAction::CastPattern => action@ is CastPattern,
            SelectionAction::Selection => action@ is Selection,
            SelectionAction::Length => action@ is Length,
            SelectionAction::Element(index) => action@ == SelectionAction::<
                E,
                Seq<char>,
            >::Element(index),
            SelectionAction::Text(limit) => action@ == SelectionAction::<E, Seq<char>>::Text(limit),
            SelectionAction::Return(Ok(text)) => action@ == SelectionAction::<
                E,
                Seq<char>,
            >::Return(Ok(text@)),
            SelectionAction::Return(Err(e)) => action@ == SelectionAction::<
                E,
                Seq<char>,
            >::Return(Err(e)),
        },
{
}

/// The model of a reply and of a request leaves nothing of them out: texts are
/// seen character by character, and everything else as it is.
pub proof fn law_searches_are_seen_whole<E>(event: FallbackEvent<E, String>, action: FallbackAction<E, String>)
    ensures
        match event {
            FallbackEvent::Start => event@ is Start,
            FallbackEvent::Selection(Ok(text)) => event@ == FallbackEvent::<
                E,
                Seq<char>,
            >::Selection(Ok(text@)),
            FallbackEvent::Selection(Err(e)) => event@ == FallbackEvent::<
                E,
                Seq<char>,
            >::Selection(Err(e)),
            FallbackEvent::Copied(Ok(text)) => event@ == FallbackEvent::<E, Seq<char>>::Copied(
                Ok(text@),
            ),
            FallbackEvent::Copied(Err(e)) => event@ == FallbackEvent::<E, Seq<char>>::Copied(
                Err(e),
            ),
        },
        match action {
            FallbackAction::ReadSelection => action@ is ReadSelection,
            FallbackAction::CopySelection => action@ is CopySelection,
            FallbackAction::Return(Ok(text)) => action@ == FallbackAction::<E, Seq<char>>::Return(
                Ok(text@),
            ),
            FallbackAction::Return(Err(e)) => action@ == FallbackAction::<E, Seq<char>>::Return(
                Err(e),
            ),
        },
{
}

/// A step can be made for every reply that is waited for, and it is the one that
/// the runs are made of.
pub proof fn law_selecting_is_made_of_steps<E>(
    state: SelectionState<String>,
    event: SelectionEvent<E, String>,
    result: (SelectionState<String>, SelectionAction<E, String>),
)
    requires
        selection_accepts(state@, event@),
    ensures
        call_requires(get_focused_selection::<E>, (state, event)),
        call_ensures(get_focused_selection::<E>, (state, event), result) ==> (result.0@, result.1@) == selection_next(
            state@,
            event@,
        ),
{
}

/// A step can be made for every reply that is waited for, and it is the one that
/// the runs are made of.
pub proof fn law_search_is_made_of_steps<E>(
    state: FallbackState,
    event: FallbackEvent<E, String>,
    result: (FallbackState, FallbackAction<E, String>),
)
    requires
        fallback_accepts(state, event@),
    ensures
        call_requires(get_focused_selection_with_fallback_copy::<E>, (state, event)),
        call_ensures(get_focused_selection_with_fallback_copy::<E>, (state, event), result) ==> (result.0, result.1@) == fallback_next(
            state,
            event@,
        ),
{
}

} // verus!
