//! Recognising the text in an area of the screen.

use crate::machine::{lemma_run_push, run, Run};
use crate::number::{decimal, push_decimal, push_signed_decimal, signed_decimal};
use crate::screen::{pixels_result, ScreenRect};
use crate::text::{
    law_trimmed_is_the_core, text_result, trim, trimmed, white_space,
};
use vstd::prelude::*;
use vstd::string::*;

verus! {

/// How far the recognition has come. `P` is the type of the pixels, and `T`
/// that of the text.
#[derive(Debug, PartialEq, Eq)]
pub enum OcrState<P, T> {
    /// Nothing has been asked for.
    Ready,
    /// Waiting for the pixels of the area.
    Capturing,
    /// Waiting for the complaint to be printed.
    Complaining,
    /// Waiting for the capture to be announced.
    Announcing { pixels: P, width: i32, height: i32 },
    /// Waiting for a bitmap with the pixels.
    CreatingBitmap,
    /// Waiting for a recognition engine.
    CreatingEngine,
    /// Waiting for the recognition to end.
    Recognizing,
    /// Waiting for the recognised lines.
    GettingLines,
    /// Waiting for the next line.
    ReadingLines { text: T },
    /// The result has been returned.
    Finished,
}

/// The replies that the recognition waits for.
#[derive(Debug)]
pub enum OcrEvent<E, P, T> {
    /// The recognition begins, in this rectangle.
    Start(ScreenRect),
    /// The pixels of the area, its width and its height.
    Captured(Result<(P, i32, i32), E>),
    /// The line has been printed.
    Printed,
    /// How the last call went.
    Done(Result<(), E>),
    /// The text of the next line; nothing where there is no line left.
    Line(Option<Result<T, E>>),
}

/// What the recognition asks for.
#[derive(Debug)]
pub enum OcrAction<E, P, T> {
    /// Capture the pixels in this rectangle.
    Capture(ScreenRect),
    /// Print this line.
    Print(T),
    /// Make a bitmap with these pixels.
    CreateBitmap { pixels: P, width: i32, height: i32 },
    /// Make an engine for the user's languages.
    CreateEngine,
    /// Recognise the text in the bitmap.
    Recognize,
    /// Get the recognised lines.
    Lines,
    /// Get the text of the next line.
    NextLine,
    /// Return this result.
    Return(Result<T, E>),
}

/// The states with the pixels and the text taken by their views.
pub type OcrModel = OcrState<Seq<u8>, Seq<char>>;

/// The events with the pixels and the text taken by their views.
pub type OcrEventModel<E> = OcrEvent<E, Seq<u8>, Seq<char>>;

/// The actions with the pixels and the text taken by their views.
pub type OcrActionModel<E> = OcrAction<E, Seq<u8>, Seq<char>>;

impl View for OcrState<Vec<u8>, String> {
    type V = OcrModel;

    open spec fn view(&self) -> OcrModel {
        match *self {
            OcrState::Ready => OcrState::Ready,
            OcrState::Capturing => OcrState::Capturing,
            OcrState::Complaining => OcrState::Complaining,
            OcrState::Announcing { pixels, width, height } => OcrState::Announcing {
                pixels: pixels@,
                width,
                height,
            },
            OcrState::CreatingBitmap => OcrState::CreatingBitmap,
            OcrState::CreatingEngine => OcrState::CreatingEngine,
            OcrState::Recognizing => OcrState::Recognizing,
            OcrState::GettingLines => OcrState::GettingLines,
            OcrState::ReadingLines { text } => OcrState::ReadingLines { text: text@ },
            OcrState::Finished => OcrState::Finished,
        }
    }
}

impl<E> View for OcrEvent<E, Vec<u8>, String> {
    type V = OcrEventModel<E>;

    open spec fn view(&self) -> OcrEventModel<E> {
        match *self {
            OcrEvent::Start(rect) => OcrEvent::Start(rect),
            OcrEvent::Captured(r) => OcrEvent::Captured(pixels_result(r)),
            OcrEvent::Printed => OcrEvent::Printed,
            OcrEvent::Done(r) => OcrEvent::Done(r),
            OcrEvent::Line(None) => OcrEvent::Line(None),
            OcrEvent::Line(Some(r)) => OcrEvent::Line(Some(text_result(r))),
        }
    }
}

impl<E> View for OcrAction<E, Vec<u8>, String> {
    type V = OcrActionModel<E>;

    open spec fn view(&self) -> OcrActionModel<E> {
        match *self {
            OcrAction::Capture(rect) => OcrAction::Capture(rect),
            OcrAction::Print(line) => OcrAction::Print(line@),
            OcrAction::CreateBitmap { pixels, width, height } => OcrAction::CreateBitmap {
                pixels: pixels@,
                width,
                height,
            },
            OcrAction::CreateEngine => OcrAction::CreateEngine,
            OcrAction::Recognize => OcrAction::Recognize,
            OcrAction::Lines => OcrAction::Lines,
            OcrAction::NextLine => OcrAction::NextLine,
            OcrAction::Return(r) => OcrAction::Return(text_result(r)),
        }
    }
}

/// What is printed where there are no pixels.
pub open spec fn nothing_captured() -> Seq<char> {
    "截图失败或区域无效"@
}

/// What is printed of a capture: its size, and the number of its bytes.
pub open spec fn captured_size(width: i32, height: i32, bytes: nat) -> Seq<char> {
    "截图成功: "@ + signed_decimal(width as int) + "x"@ + signed_decimal(height as int)
        + ", 共 "@ + decimal(bytes) + " 字节"@
}

/// Whether an event is one that the state waits for.
pub open spec fn ocr_accepts<E>(state: OcrModel, event: OcrEventModel<E>) -> bool {
    match state {
        OcrState::Ready => event is Start,
        OcrState::Capturing => event is Captured,
        OcrState::Complaining => event is Printed,
        OcrState::Announcing { pixels, width, height } => event is Printed,
        OcrState::CreatingBitmap => event is Done,
        OcrState::CreatingEngine => event is Done,
        OcrState::Recognizing => event is Done,
        OcrState::GettingLines => event is Done,
        OcrState::ReadingLines { text } => event is Line,
        OcrState::Finished => false,
    }
}

/// The error that an event carries, if any.
pub open spec fn ocr_error<E>(event: OcrEventModel<E>) -> Option<E> {
    match event {
        OcrEvent::Captured(Err(e)) => Some(e),
        OcrEvent::Done(Err(e)) => Some(e),
        OcrEvent::Line(Some(Err(e))) => Some(e),
        _ => None,
    }
}

/// What an event makes of the state, and what is asked for next.
///
/// The first error ends the recognition and is its result. Where no pixels
/// were captured the result is empty. Otherwise it is made of the recognised
/// lines, each followed by a line break, without the white space at both ends.
pub open spec fn ocr_next<E>(state: OcrModel, event: OcrEventModel<E>) -> (
    OcrModel,
    OcrActionModel<E>,
) {
    match ocr_error(event) {
        Some(e) => (OcrState::Finished, OcrAction::Return(Err(e))),
        None => match state {
            OcrState::Ready => (OcrState::Capturing, OcrAction::Capture(event->Start_0)),
            OcrState::Capturing => {
                let (pixels, width, height) = event->Captured_0->Ok_0;
                if pixels.len() == 0 {
                    (OcrState::Complaining, OcrAction::Print(nothing_captured()))
                } else {
                    (
                        OcrState::Announcing { pixels, width, height },
                        OcrAction::Print(captured_size(width, height, pixels.len())),
                    )
                }
            },
            OcrState::Complaining => (OcrState::Finished, OcrAction::Return(Ok(Seq::empty()))),
            OcrState::Announcing { pixels, width, height } => (
                OcrState::CreatingBitmap,
                OcrAction::CreateBitmap { pixels, width, height },
            ),
            OcrState::CreatingBitmap => (OcrState::CreatingEngine, OcrAction::CreateEngine),
            OcrState::CreatingEngine => (OcrState::Recognizing, OcrAction::Recognize),
            OcrState::Recognizing => (OcrState::GettingLines, OcrAction::Lines),
            OcrState::GettingLines => (
                OcrState::ReadingLines { text: Seq::empty() },
                OcrAction::NextLine,
            ),
            OcrState::ReadingLines { text } => match event->Line_0 {
                Some(line) => (
                    OcrState::ReadingLines { text: (text + line->Ok_0).push('\n') },
                    OcrAction::NextLine,
                ),
                None => (OcrState::Finished, OcrAction::Return(Ok(trimmed(text)))),
            },
            OcrState::Finished => (state, OcrAction::Return(Ok(Seq::empty()))),
        },
    }
}

/// The line that announces a capture.
fn announcement(width: i32, height: i32, bytes: usize) -> (line: String)
    ensures
        line@ == captured_size(width, height, bytes as nat),
{
    let mut line = "截图成功: ".to_owned();
    push_signed_decimal(&mut line, width);
    line.append("x");
    push_signed_decimal(&mut line, height);
    line.append(", 共 ");
    push_decimal(&mut line, bytes as u64);
    line.append(" 字节");
    line
}

/// One step of capturing an area of the screen and recognising the text in it.
pub fn capture_and_recognize<E>(
    state: OcrState<Vec<u8>, String>,
    event: OcrEvent<E, Vec<u8>, String>,
) -> (r: (OcrState<Vec<u8>, String>, OcrAction<E, Vec<u8>, String>))
    requires
        ocr_accepts(state@, event@),
    ensures
        (r.0@, r.1@) == ocr_next(state@, event@),
{
    match (state, event) {
        (OcrState::Ready, OcrEvent::Start(rect)) => (
            OcrState::Capturing,
            OcrAction::Capture(rect),
        ),
        (OcrState::Capturing, OcrEvent::Captured(Ok((pixels, width, height)))) => {
            let bytes: usize = pixels.len();
            if bytes == 0 {
                (OcrState::Complaining, OcrAction::Print("截图失败或区域无效".to_owned()))
            } else {
                let line = announcement(width, height, bytes);
                (OcrState::Announcing { pixels, width, height }, OcrAction::Print(line))
            }
        },
        (OcrState::Capturing, OcrEvent::Captured(Err(e))) => (
            OcrState::Finished,
            OcrAction::Return(Err(e)),
        ),
        (OcrState::Complaining, _) => (
            OcrState::Finished,
            OcrAction::Return(Ok(String::new())),
        ),
        (OcrState::Announcing { pixels, width, height }, _) => (
            OcrState::CreatingBitmap,
            OcrAction::CreateBitmap { pixels, width, height },
        ),
        (OcrState::ReadingLines { text }, OcrEvent::Line(Some(Ok(line)))) => {
            let mut text = text;
            text.append(line.as_str());
            text.push('\n');
            (OcrState::ReadingLines { text }, OcrAction::NextLine)
        },
        (OcrState::ReadingLines { text }, OcrEvent::Line(Some(Err(e)))) => (
            OcrState::Finished,
            OcrAction::Return(Err(e)),
        ),
        (OcrState::ReadingLines { text }, OcrEvent::Line(None)) => (
            OcrState::Finished,
            OcrAction::Return(Ok(trim(text.as_str()))),
        ),
        (state, OcrEvent::Done(Err(e))) => (OcrState::Finished, OcrAction::Return(Err(e))),
        (OcrState::CreatingBitmap, _) => (OcrState::CreatingEngine, OcrAction::CreateEngine),
        (OcrState::CreatingEngine, _) => (OcrState::Recognizing, OcrAction::Recognize),
        (OcrState::Recognizing, _) => (OcrState::GettingLines, OcrAction::Lines),
        (OcrState::GettingLines, _) => (
            OcrState::ReadingLines { text: String::new() },
            OcrAction::NextLine,
        ),
        _ => vstd::pervasive::unreached(),
    }
}

/// The run of the recognition over a sequence of events.
pub open spec fn ocr_run<E>(events: Seq<OcrEventModel<E>>) -> Run<OcrModel, OcrActionModel<E>> {
    run(
        OcrState::Ready,
        |s: OcrModel, e: OcrEventModel<E>| ocr_accepts(s, e),
        |s: OcrModel, e: OcrEventModel<E>| ocr_next(s, e),
        events,
    )
}

proof fn lemma_ocr_push<E>(events: Seq<OcrEventModel<E>>, event: OcrEventModel<E>)
    ensures
        ({
            let before = ocr_run(events);
            let after = ocr_run(events.push(event));
            &&& after.valid == (before.valid && ocr_accepts(before.state, event))
            &&& after.state == ocr_next(before.state, event).0
            &&& after.actions == before.actions.push(ocr_next(before.state, event).1)
        }),
{
    lemma_run_push(
        OcrState::Ready,
        |s: OcrModel, e: OcrEventModel<E>| ocr_accepts(s, e),
        |s: OcrModel, e: OcrEventModel<E>| ocr_next(s, e),
        events,
        event,
    );
}

/// Lines one after the other, each followed by a line break.
pub open spec fn broken_lines(recognized: Seq<Seq<char>>) -> Seq<char>
    decreases recognized.len(),
{
    if recognized.len() == 0 {
        Seq::empty()
    } else {
        (broken_lines(recognized.drop_last()) + recognized.last()).push('\n')
    }
}

/// The replies to a recognition of which every call succeeds, up to the last
/// of the given lines.
pub open spec fn line_replies<E>(
    rect: ScreenRect,
    pixels: Seq<u8>,
    width: i32,
    height: i32,
    recognized: Seq<Seq<char>>,
) -> Seq<OcrEventModel<E>>
    decreases recognized.len(),
{
    if recognized.len() == 0 {
        seq![
            OcrEvent::Start(rect),
            OcrEvent::Captured(Ok((pixels, width, height))),
            OcrEvent::Printed,
            OcrEvent::Done(Ok(())),
            OcrEvent::Done(Ok(())),
            OcrEvent::Done(Ok(())),
            OcrEvent::Done(Ok(())),
        ]
    } else {
        line_replies(rect, pixels, width, height, recognized.drop_last()).push(
            OcrEvent::Line(Some(Ok(recognized.last()))),
        )
    }
}

proof fn lemma_lines_are_read<E>(
    rect: ScreenRect,
    pixels: Seq<u8>,
    width: i32,
    height: i32,
    recognized: Seq<Seq<char>>,
)
    requires
        pixels.len() > 0,
    ensures
        ({
            let outcome = ocr_run(line_replies::<E>(rect, pixels, width, height, recognized));
            &&& outcome.valid
            &&& outcome.state == (OcrModel::ReadingLines { text: broken_lines(recognized) })
        }),
    decreases recognized.len(),
{
    let all = line_replies::<E>(rect, pixels, width, height, recognized);
    if recognized.len() == 0 {
        let e0 = Seq::<OcrEventModel<E>>::empty();
        let e1 = e0.push(all[0]);
        let e2 = e1.push(all[1]);
        let e3 = e2.push(all[2]);
        let e4 = e3.push(all[3]);
        let e5 = e4.push(all[4]);
        let e6 = e5.push(all[5]);
        let e7 = e6.push(all[6]);
        lemma_ocr_push(e0, all[0]);
        lemma_ocr_push(e1, all[1]);
        lemma_ocr_push(e2, all[2]);
        lemma_ocr_push(e3, all[3]);
        lemma_ocr_push(e4, all[4]);
        lemma_ocr_push(e5, all[5]);
        lemma_ocr_push(e6, all[6]);
        assert(e7 =~= all);
    } else {
        let front = recognized.drop_last();
        lemma_lines_are_read::<E>(rect, pixels, width, height, front);
        lemma_ocr_push(
            line_replies::<E>(rect, pixels, width, height, front),
            OcrEvent::Line(Some(Ok(recognized.last()))),
        );
    }
}

/// Where every call succeeds, the result is made of all of the recognised
/// lines in their order, each followed by a line break, without the white
/// space at both ends.
pub proof fn law_every_line_is_returned<E>(
    rect: ScreenRect,
    pixels: Seq<u8>,
    width: i32,
    height: i32,
    recognized: Seq<Seq<char>>,
)
    requires
        pixels.len() > 0,
    ensures
        ({
            let outcome = ocr_run(
                line_replies::<E>(rect, pixels, width, height, recognized).push(
                    OcrEvent::Line(None),
                ),
            );
            &&& outcome.valid
            &&& outcome.state is Finished
            &&& outcome.actions.last() == OcrActionModel::<E>::Return(
                Ok(trimmed(broken_lines(recognized))),
            )
        }),
{
    lemma_lines_are_read::<E>(rect, pixels, width, height, recognized);
    lemma_ocr_push(
        line_replies::<E>(rect, pixels, width, height, recognized),
        OcrEvent::Line(None),
    );
}

/// The lines that were read, in order.
pub open spec fn lines_read<E>(events: Seq<OcrEventModel<E>>) -> Seq<Seq<char>>
    decreases events.len(),
{
    if events.len() == 0 {
        Seq::empty()
    } else {
        let before = lines_read(events.drop_last());
        match events.last() {
            OcrEvent::Line(Some(Ok(line))) => before.push(line),
            _ => before,
        }
    }
}

/// What is known of the state after any events that the machine waited for.
proof fn lemma_ocr_state<E>(events: Seq<OcrEventModel<E>>)
    requires
        ocr_run(events).valid,
    ensures
        ({
            let outcome = ocr_run(events);
            let recognized = lines_read(events);
            match outcome.state {
                OcrState::ReadingLines { text } => text == broken_lines(recognized),
                OcrState::Finished => {
                    &&& events.len() > 0
                    &&& outcome.actions.last() is Return
                    &&& match outcome.actions.last()->Return_0 {
                        Ok(text) => text == trimmed(broken_lines(recognized)) && ocr_error(
                            events.last(),
                        ) is None,
                        Err(e) => ocr_error(events.last()) == Some(e),
                    }
                },
                _ => recognized =~= Seq::empty(),
            }
        }),
    decreases events.len(),
{
    if events.len() > 0 {
        let before = events.drop_last();
        lemma_ocr_state(before);
        let earlier = ocr_run(before);
        let outcome = ocr_run(events);
        let (state, action) = ocr_next(earlier.state, events.last());
        assert(outcome.actions == earlier.actions.push(action));
        assert(outcome.actions.last() == action);
        if let OcrEvent::Line(Some(Ok(line))) = events.last() {
            assert(lines_read(before).push(line).drop_last() =~= lines_read(before));
        }
        assert(broken_lines(Seq::<Seq<char>>::empty()) =~= Seq::<char>::empty());
        assert(trimmed(Seq::<char>::empty()) =~= Seq::<char>::empty());
        if lines_read(before).len() == 0 {
            assert(lines_read(before) =~= Seq::empty());
        }
    }
}

/// Whatever the replies were, the result is the error of the last reply where
/// that has one, and otherwise the lines that were read, each followed by a
/// line break, without the white space at both ends.
pub proof fn law_recognised_text_is_what_was_read<E>(events: Seq<OcrEventModel<E>>)
    requires
        ocr_run(events).valid,
        ocr_run(events).state is Finished,
    ensures
        events.len() > 0,
        ocr_run(events).actions.last() == OcrActionModel::<E>::Return(
            match ocr_error(events.last()) {
                Some(e) => Err(e),
                None => Ok(trimmed(broken_lines(lines_read(events)))),
            },
        ),
{
    lemma_ocr_state(events);
}

/// Where nothing was captured, that is said, the result is empty, and no
/// bitmap and no engine is made.
pub proof fn law_nothing_is_recognised_in_nothing<E>(rect: ScreenRect, width: i32, height: i32)
    ensures
        ({
            let outcome = ocr_run(
                seq![
                    OcrEventModel::<E>::Start(rect),
                    OcrEvent::Captured(Ok((Seq::empty(), width, height))),
                    OcrEvent::Printed,
                ],
            );
            &&& outcome.valid
            &&& outcome.state is Finished
            &&& outcome.actions =~= seq![
                OcrActionModel::<E>::Capture(rect),
                OcrAction::Print(nothing_captured()),
                OcrAction::Return(Ok(Seq::empty())),
            ]
        }),
{
    let all = seq![
        OcrEventModel::<E>::Start(rect),
        OcrEvent::Captured(Ok((Seq::empty(), width, height))),
        OcrEvent::Printed,
    ];
    let e0 = Seq::<OcrEventModel<E>>::empty();
    let e1 = e0.push(all[0]);
    let e2 = e1.push(all[1]);
    let e3 = e2.push(all[2]);
    lemma_ocr_push(e0, all[0]);
    lemma_ocr_push(e1, all[1]);
    lemma_ocr_push(e2, all[2]);
    assert(e3 =~= all);
}

/// The first error ends the recognition: it is the result, and nothing is
/// called after it.
pub proof fn law_first_error_ends_the_recognition<E>(
    state: OcrModel,
    event: OcrEventModel<E>,
    later: OcrEventModel<E>,
)
    requires
        ocr_error(event) is Some,
    ensures
        ocr_next(state, event).1 == OcrActionModel::<E>::Return(Err(ocr_error(event)->0)),
        !ocr_accepts(ocr_next(state, event).0, later),
{
}

/// Whatever the replies were, a text that was recognised neither starts nor
/// ends with white space.
pub proof fn law_recognised_text_has_no_margin<E>(events: Seq<OcrEventModel<E>>)
    requires
        ocr_run(events).valid,
        events.len() > 0,
        ocr_run(events).actions.last() is Return,
    ensures
        ocr_run(events).actions.last()->Return_0 matches Ok(text) ==> (text.len() > 0 ==>
            !white_space(text.first()) && !white_space(text.last())),
{
    let earlier = ocr_run(events.drop_last());
    assert(ocr_run(events).actions.last() == ocr_next(earlier.state, events.last()).1);
    if let OcrState::ReadingLines { text } = earlier.state {
        law_trimmed_is_the_core(text);
    }
}

/// What was asked for last, going by the state.
proof fn lemma_ocr_asked<E>(events: Seq<OcrEventModel<E>>)
    requires
        ocr_run(events).valid,
    ensures
        ({
            let outcome = ocr_run(events);
            let asked = outcome.actions.last();
            match outcome.state {
                OcrState::Ready => events.len() == 0,
                OcrState::Capturing => asked is Capture && events.len() == 1,
                OcrState::Complaining => asked is Print && events.len() == 2 && events[1]
                    is Captured && events[1]->Captured_0 is Ok
                    && events[1]->Captured_0->Ok_0.0.len() == 0,
                OcrState::Announcing { pixels, width, height } => asked is Print && events.len()
                    == 2 && pixels.len() > 0 && events[1] == OcrEventModel::<E>::Captured(
                    Ok((pixels, width, height)),
                ),
                OcrState::CreatingBitmap => asked is CreateBitmap,
                OcrState::CreatingEngine => asked is CreateEngine,
                OcrState::Recognizing => asked is Recognize,
                OcrState::GettingLines => asked is Lines,
                OcrState::ReadingLines { text } => asked is NextLine,
                OcrState::Finished => asked is Return,
            }
        }),
    decreases events.len(),
{
    if events.len() > 0 {
        let before = events.drop_last();
        lemma_ocr_asked(before);
        let earlier = ocr_run(before);
        let outcome = ocr_run(events);
        let (state, action) = ocr_next(earlier.state, events.last());
        assert(outcome.actions == earlier.actions.push(action));
        assert(events[events.len() - 1] == events.last());
        assert(forall|i: int| 0 <= i < before.len() ==> #[trigger] events[i] == before[i]);
    }
}

/// What each reply leads to, in every run. The rectangle is captured as it was
/// given. Pixels, however many and of whatever size, are announced with that
/// size and their number, and the bitmap is asked for with all of them and with
/// that same size. Engine, recognition and lines follow; every line leads to
/// the next one, and once there is none left all of them are returned. Every
/// error ends the recognition and is its result.
pub proof fn law_recognition_goes_step_by_step<E>(events: Seq<OcrEventModel<E>>)
    requires
        ocr_run(events).valid,
        events.len() > 0,
    ensures
        ({
            let asked = ocr_run(events.drop_last()).actions.last();
            let action = ocr_run(events).actions.last();
            match events.last() {
                OcrEvent::Start(rect) => events.len() == 1 && action == OcrActionModel::<
                    E,
                >::Capture(rect),
                OcrEvent::Captured(Err(e)) => action == OcrActionModel::<E>::Return(Err(e)),
                OcrEvent::Captured(Ok((pixels, width, height))) => action == OcrActionModel::<
                    E,
                >::Print(
                    if pixels.len() == 0 {
                        "截图失败或区域无效"@
                    } else {
                        "截图成功: "@ + signed_decimal(width as int) + "x"@ + signed_decimal(
                            height as int,
                        ) + ", 共 "@ + decimal(pixels.len()) + " 字节"@
                    },
                ),
                OcrEvent::Printed => {
                    &&& events.len() == 3
                    &&& events[1] matches OcrEvent::Captured(Ok((pixels, width, height)))
                    &&& action == if pixels.len() == 0 {
                        OcrActionModel::<E>::Return(Ok(Seq::empty()))
                    } else {
                        OcrAction::CreateBitmap { pixels, width, height }
                    }
                },
                OcrEvent::Done(Err(e)) => action == OcrActionModel::<E>::Return(Err(e)),
                OcrEvent::Done(Ok(_)) => match asked {
                    OcrAction::CreateBitmap { .. } => action is CreateEngine,
                    OcrAction::CreateEngine => action is Recognize,
                    OcrAction::Recognize => action is Lines,
                    _ => asked is Lines && action is NextLine,
                },
                OcrEvent::Line(Some(Ok(_))) => action is NextLine,
                OcrEvent::Line(Some(Err(e))) => action == OcrActionModel::<E>::Return(Err(e)),
                OcrEvent::Line(None) => action == OcrActionModel::<E>::Return(
                    Ok(trimmed(broken_lines(lines_read(events)))),
                ),
            }
        }),
{
    let before = events.drop_last();
    lemma_ocr_asked(before);
    lemma_ocr_state(before);
    let earlier = ocr_run(before);
    let outcome = ocr_run(events);
    let (state, action) = ocr_next(earlier.state, events.last());
    assert(outcome.actions == earlier.actions.push(action));
    assert(outcome.actions.last() == action);
    assert(forall|i: int| 0 <= i < before.len() ==> #[trigger] events[i] == before[i]);
}

/// The recognition takes every reply to what it asked for last, and nothing
/// else. Once it has returned it takes nothing any more.
pub proof fn law_recognition_takes_every_reply<E>(
    events: Seq<OcrEventModel<E>>,
    event: OcrEventModel<E>,
)
    requires
        ocr_run(events).valid,
    ensures
        ocr_run(events.push(event)).valid <==> if events.len() == 0 {
            event is Start
        } else {
            match ocr_run(events).actions.last() {
                OcrAction::Capture(_) => event is Captured,
                OcrAction::Print(_) => event is Printed,
                OcrAction::NextLine => event is Line,
                OcrAction::Return(_) => false,
                _ => event is Done,
            }
        },
{
    lemma_ocr_asked(events);
    assert(events.push(event).drop_last() =~= events);
}

/// Whatever was captured, its pixels, its width and its height are those of the
/// bitmap that is asked for.
pub proof fn law_bitmap_is_that_of_the_capture<E>(
    rect: ScreenRect,
    pixels: Seq<u8>,
    width: i32,
    height: i32,
)
    requires
        pixels.len() > 0,
    ensures
        ({
            let outcome = ocr_run(
                seq![
                    OcrEventModel::<E>::Start(rect),
                    OcrEvent::Captured(Ok((pixels, width, height))),
                    OcrEvent::Printed,
                ],
            );
            &&& outcome.valid
            &&& outcome.actions.last() == (OcrActionModel::<E>::CreateBitmap {
                pixels,
                width,
                height,
            })
        }),
{
    let all = seq![
        OcrEventModel::<E>::Start(rect),
        OcrEvent::Captured(Ok((pixels, width, height))),
        OcrEvent::Printed,
    ];
    let e0 = Seq::<OcrEventModel<E>>::empty();
    let e1 = e0.push(all[0]);
    let e2 = e1.push(all[1]);
    let e3 = e2.push(all[2]);
    lemma_ocr_push(e0, all[0]);
    lemma_ocr_push(e1, all[1]);
    lemma_ocr_push(e2, all[2]);
    assert(e3 =~= all);
}

/// The model of a reply and of a request leaves nothing of them out: pixels are
/// seen byte by byte, texts character by character, and everything else as it
/// is.
pub proof fn law_recognitions_are_seen_whole<E>(event: OcrEvent<E, Vec<u8>, String>, action: OcrAction<E, Vec<u8>, String>)
    ensures
        OcrState::<Vec<u8>, String>::Ready@ is Ready,
        match event {
            OcrEvent::Start(rect) => event@ == OcrEventModel::<E>::Start(rect),
            OcrEvent::Captured(Ok((pixels, width, height))) => event@ == OcrEventModel::<
                E,
            >::Captured(Ok((pixels@, width, height))),
            OcrEvent::Captured(Err(e)) => event@ == OcrEventModel::<E>::Captured(Err(e)),
            OcrEvent::Printed => event@ is Printed,
            OcrEvent::Done(r) => event@ == OcrEventModel::<E>::Done(r),
            OcrEvent::Line(None) => event@ == OcrEventModel::<E>::Line(None),
            OcrEvent::Line(Some(Ok(line))) => event@ == OcrEventModel::<E>::Line(Some(Ok(line@))),
            OcrEvent::Line(Some(Err(e))) => event@ == OcrEventModel::<E>::Line(Some(Err(e))),
        },
        match action {
            OcrAction::Capture(rect) => action@ == OcrActionModel::<E>::Capture(rect),
            OcrAction::Print(line) => action@ == OcrActionModel::<E>::Print(line@),
            OcrAction::CreateBitmap { pixels, width, height } => action@ == (OcrActionModel::<
                E,
            >::CreateBitmap { pixels: pixels@, width, height }),
            OcrAction::CreateEngine => action@ is CreateEngine,
            OcrAction::Recognize => action@ is Recognize,
            OcrAction::Lines => action@ is Lines,
            OcrAction::NextLine => action@ is NextLine,
            OcrAction::Return(Ok(text)) => action@ == OcrActionModel::<E>::Return(Ok(text@)),
            OcrAction::Return(Err(e)) => action@ == OcrActionModel::<E>::Return(Err(e)),
        },
{
}

/// A step can be made for every reply that is waited for, and it is the one that
/// the runs are made of.
pub proof fn law_recognition_is_made_of_steps<E>(
    state: OcrState<Vec<u8>, String>,
    event: OcrEvent<E, Vec<u8>, String>,
    result: (OcrState<Vec<u8>, String>, OcrAction<E, Vec<u8>, String>),
)
    requires
        ocr_accepts(state@, event@),
    ensures
        call_requires(capture_and_recognize::<E>, (state, event)),
        call_ensures(capture_and_recognize::<E>, (state, event), result) ==> (result.0@, result.1@) == ocr_next(
            state@,
            event@,
        ),
{
}

/// Each of some lines stands whole among the others, with a line break behind
/// it.
pub proof fn law_breaking_keeps_every_line(
    before: Seq<Seq<char>>,
    line: Seq<char>,
    after: Seq<Seq<char>>,
)
    ensures
        broken_lines(before + seq![line] + after) == broken_lines(before) + line + seq!['\n']
            + broken_lines(after),
    decreases after.len(),
{
    let all = before + seq![line] + after;
    if after.len() == 0 {
        assert(all.drop_last() =~= before);
        assert(all.last() == line);
        assert(broken_lines(after) =~= Seq::empty());
        assert(broken_lines(all) =~= broken_lines(before) + line + seq!['\n'] + broken_lines(
            after,
        ));
    } else {
        law_breaking_keeps_every_line(before, line, after.drop_last());
        assert(all.drop_last() =~= before + seq![line] + after.drop_last());
        assert(all.last() == after.last());
        assert(broken_lines(all) =~= broken_lines(before) + line + seq!['\n'] + broken_lines(
            after,
        ));
    }
}

} // verus!
