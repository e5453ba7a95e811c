//! Turning captured pixels into a bitmap that text can be recognised in.

use crate::machine::{run, Run};
use vstd::prelude::*;

verus! {

/// How the bytes of a pixel are laid out.
#[derive(Clone, Copy, Debug, PartialEq, Eq)]
pub enum PixelFormat {
    /// Blue, green, red and alpha, a byte each.
    Bgra8,
}

/// What the alpha of a pixel means.
#[derive(Clone, Copy, Debug, PartialEq, Eq)]
pub enum AlphaMode {
    /// The colours have been multiplied by it.
    Premultiplied,
}

/// How far the making of a bitmap has come. `P` is the type of the pixels.
#[derive(Debug, PartialEq, Eq)]
pub enum BitmapState<P> {
    /// Nothing has been asked for.
    Ready,
    /// Waiting for the bitmap.
    Creating { pixels: P },
    /// Waiting for a writer.
    MakingWriter { pixels: P },
    /// Waiting for the pixels to be written.
    Writing,
    /// Waiting for the writer's buffer.
    Detaching,
    /// Waiting for the buffer to be copied to the bitmap.
    Copying,
    /// The result has been returned.
    Finished,
}

/// The replies that the making of a bitmap waits for.
#[derive(Debug, PartialEq, Eq)]
pub enum BitmapEvent<E, P> {
    /// The making begins, of a bitmap with these pixels and this size.
    Start { pixels: P, width: i32, height: i32 },
    /// How the last call went.
    Done(Result<(), E>),
}

/// What the making of a bitmap asks for.
#[derive(Debug, PartialEq, Eq)]
pub enum BitmapAction<E, P> {
    /// Create a bitmap.
    Create { format: PixelFormat, width: i32, height: i32, alpha: AlphaMode },
    /// Make a writer.
    NewWriter,
    /// Write these bytes.
    Write(P),
    /// Take the writer's buffer.
    DetachBuffer,
    /// Copy the buffer to the bitmap.
    CopyFromBuffer,
    /// Return the bitmap, or this error.
    Return(Result<(), E>),
}

impl View for BitmapState<Vec<u8>> {
    type V = BitmapState<Seq<u8>>;

    open spec fn view(&self) -> BitmapState<Seq<u8>> {
        match *self {
            BitmapState::Ready => BitmapState::Ready,
            BitmapState::Creating { pixels } => BitmapState::Creating { pixels: pixels@ },
            BitmapState::MakingWriter { pixels } => BitmapState::MakingWriter { pixels: pixels@ },
            BitmapState::Writing => BitmapState::Writing,
            BitmapState::Detaching => BitmapState::Detaching,
            BitmapState::Copying => BitmapState::Copying,
            BitmapState::Finished => BitmapState::Finished,
        }
    }
}

impl<E> View for BitmapEvent<E, Vec<u8>> {
    type V = BitmapEvent<E, Seq<u8>>;

    open spec fn view(&self) -> BitmapEvent<E, Seq<u8>> {
        match *self {
            BitmapEvent::Start { pixels, width, height } => BitmapEvent::Start {
                pixels: pixels@,
                width,
                height,
            },
            BitmapEvent::Done(r) => BitmapEvent::Done(r),
        }
    }
}

impl<E> View for BitmapAction<E, Vec<u8>> {
    type V = BitmapAction<E, Seq<u8>>;

    open spec fn view(&self) -> BitmapAction<E, Seq<u8>> {
        match *self {
            BitmapAction::Create { format, width, height, alpha } => BitmapAction::Create {
                format,
                width,
                height,
                alpha,
            },
            BitmapAction::NewWriter => BitmapAction::NewWriter,
            BitmapAction::Write(pixels) => BitmapAction::Write(pixels@),
            BitmapAction::DetachBuffer => BitmapAction::DetachBuffer,
            BitmapAction::CopyFromBuffer => BitmapAction::CopyFromBuffer,
            BitmapAction::Return(r) => BitmapAction::Return(r),
        }
    }
}

/// Whether an event is one that the state waits for.
pub open spec fn bitmap_accepts<E>(
    state: BitmapState<Seq<u8>>,
    event: BitmapEvent<E, Seq<u8>>,
) -> bool {
    match state {
        BitmapState::Ready => event is Start,
        BitmapState::Finished => false,
        _ => event is Done,
    }
}

/// What an event makes of the state, and what is asked for next. The first
/// error ends the making and is its result.
pub open spec fn bitmap_next<E>(state: BitmapState<Seq<u8>>, event: BitmapEvent<E, Seq<u8>>) -> (
    BitmapState<Seq<u8>>,
    BitmapAction<E, Seq<u8>>,
) {
    match event {
        BitmapEvent::Start { pixels, width, height } => (
            BitmapState::Creating { pixels },
            BitmapAction::Create {
                format: PixelFormat::Bgra8,
                width,
                height,
                alpha: AlphaMode::Premultiplied,
            },
        ),
        BitmapEvent::Done(Err(e)) => (BitmapState::Finished, BitmapAction::Return(Err(e))),
        BitmapEvent::Done(Ok(_)) => match state {
            BitmapState::Creating { pixels } => (
                BitmapState::MakingWriter { pixels },
                BitmapAction::NewWriter,
            ),
            BitmapState::MakingWriter { pixels } => (
                BitmapState::Writing,
                BitmapAction::Write(pixels),
            ),
            BitmapState::Writing => (BitmapState::Detaching, BitmapAction::DetachBuffer),
            BitmapState::Detaching => (BitmapState::Copying, BitmapAction::CopyFromBuffer),
            _ => (BitmapState::Finished, BitmapAction::Return(Ok(()))),
        },
    }
}

/// One step of turning captured pixels into a bitmap.
pub fn create_software_bitmap_from_bytes<E>(
    state: BitmapState<Vec<u8>>,
    event: BitmapEvent<E, Vec<u8>>,
) -> (r: (BitmapState<Vec<u8>>, BitmapAction<E, Vec<u8>>))
    requires
        bitmap_accepts(state@, event@),
    ensures
        (r.0@, r.1@) == bitmap_next(state@, event@),
{
    match event {
        BitmapEvent::Start { pixels, width, height } => (
            BitmapState::Creating { pixels },
            BitmapAction::Create {
                format: PixelFormat::Bgra8,
                width,
                height,
                alpha: AlphaMode::Premultiplied,
            },
        ),
        BitmapEvent::Done(Err(e)) => (BitmapState::Finished, BitmapAction::Return(Err(e))),
        BitmapEvent::Done(Ok(())) => match state {
            BitmapState::Creating { pixels } => (
                BitmapState::MakingWriter { pixels },
                BitmapAction::NewWriter,
            ),
            BitmapState::MakingWriter { pixels } => (
                BitmapState::Writing,
                BitmapAction::Write(pixels),
            ),
            BitmapState::Writing => (BitmapState::Detaching, BitmapAction::DetachBuffer),
            BitmapState::Detaching => (BitmapState::Copying, BitmapAction::CopyFromBuffer),
            _ => (BitmapState::Finished, BitmapAction::Return(Ok(()))),
        },
    }
}

/// The run of the making of a bitmap over a sequence of events.
pub open spec fn bitmap_run<E>(events: Seq<BitmapEvent<E, Seq<u8>>>) -> Run<
    BitmapState<Seq<u8>>,
    BitmapAction<E, Seq<u8>>,
> {
    run(
        BitmapState::Ready,
        |s: BitmapState<Seq<u8>>, e: BitmapEvent<E, Seq<u8>>| bitmap_accepts(s, e),
        |s: BitmapState<Seq<u8>>, e: BitmapEvent<E, Seq<u8>>| bitmap_next(s, e),
        events,
    )
}

/// The bytes that were written, in order.
pub open spec fn written<E>(actions: Seq<BitmapAction<E, Seq<u8>>>) -> Seq<Seq<u8>>
    decreases actions.len(),
{
    if actions.len() == 0 {
        Seq::empty()
    } else {
        let before = written(actions.drop_last());
        match actions.last() {
            BitmapAction::Write(pixels) => before.push(pixels),
            _ => before,
        }
    }
}

proof fn lemma_bitmap_state<E>(events: Seq<BitmapEvent<E, Seq<u8>>>)
    requires
        bitmap_run(events).valid,
        events.len() > 0,
    ensures
        ({
            let outcome = bitmap_run(events);
            let done = written(outcome.actions);
            &&& events[0] is Start
            &&& match outcome.state {
                BitmapState::Ready => false,
                BitmapState::Creating { pixels } => pixels == events[0]->pixels && done
                    =~= Seq::empty(),
                BitmapState::MakingWriter { pixels } => pixels == events[0]->pixels && done
                    =~= Seq::empty(),
                BitmapState::Finished => outcome.actions.last() is Return && events.last()
                    is Done && outcome.actions.last()->Return_0 == (match events.last()->Done_0 {
                    Ok(_) => Ok(()),
                    Err(e) => Err(e),
                }) && (outcome.actions.last()->Return_0 is Ok ==> done =~= seq![events[0]->pixels]),
                _ => done =~= seq![events[0]->pixels],
            }
        }),
    decreases events.len(),
{
    let before = events.drop_last();
    let earlier = bitmap_run(before);
    let outcome = bitmap_run(events);
    let (state, action) = bitmap_next(earlier.state, events.last());
    if before.len() > 0 {
        lemma_bitmap_state(before);
    } else {
        assert(earlier.state is Ready);
        assert(events[0] == events.last());
        assert(written(earlier.actions) =~= Seq::empty());
    }
    assert(outcome.actions == earlier.actions.push(action));
    assert(outcome.actions.drop_last() =~= earlier.actions);
}

/// Whatever the replies were, the result is that of the last call; and a
/// bitmap that was made has been given the pixels, once and unchanged.
pub proof fn law_bitmaps_hold_the_pixels<E>(events: Seq<BitmapEvent<E, Seq<u8>>>)
    requires
        bitmap_run(events).valid,
        bitmap_run(events).state is Finished,
    ensures
        events.len() > 0,
        events[0] is Start,
        events.last() is Done,
        bitmap_run(events).actions.last() == BitmapAction::<E, Seq<u8>>::Return(
            match events.last()->Done_0 {
                Ok(_) => Ok(()),
                Err(e) => Err(e),
            },
        ),
        events.last()->Done_0 is Ok ==> written(bitmap_run(events).actions) == seq![
            events[0]->pixels,
        ],
{
    assert(events.len() > 0);
    lemma_bitmap_state(events);
}

/// What was asked for last, going by the state.
proof fn lemma_bitmap_asked<E>(events: Seq<BitmapEvent<E, Seq<u8>>>)
    requires
        bitmap_run(events).valid,
    ensures
        ({
            let outcome = bitmap_run(events);
            let asked = outcome.actions.last();
            match outcome.state {
                BitmapState::Ready => events.len() == 0,
                BitmapState::Creating { pixels } => asked is Create,
                BitmapState::MakingWriter { pixels } => asked is NewWriter,
                BitmapState::Writing => asked is Write,
                BitmapState::Detaching => asked is DetachBuffer,
                BitmapState::Copying => asked is CopyFromBuffer,
                BitmapState::Finished => asked is Return,
            }
        }),
    decreases events.len(),
{
    if events.len() > 0 {
        let before = events.drop_last();
        lemma_bitmap_asked(before);
        let earlier = bitmap_run(before);
        let outcome = bitmap_run(events);
        let (state, action) = bitmap_next(earlier.state, events.last());
        assert(outcome.actions == earlier.actions.push(action));
    }
}

/// What each reply leads to, in every run. The bitmap has the size that was
/// given, whatever it is; a writer is made and given all of the pixels, and its
/// buffer is copied to the bitmap. The first error ends the making.
pub proof fn law_making_goes_step_by_step<E>(events: Seq<BitmapEvent<E, Seq<u8>>>)
    requires
        bitmap_run(events).valid,
        events.len() > 0,
    ensures
        ({
            let asked = bitmap_run(events.drop_last()).actions.last();
            let action = bitmap_run(events).actions.last();
            match events.last() {
                BitmapEvent::Start { pixels, width, height } => events.len() == 1 && action
                    == (BitmapAction::<E, Seq<u8>>::Create {
                    format: PixelFormat::Bgra8,
                    width,
                    height,
                    alpha: AlphaMode::Premultiplied,
                }),
                BitmapEvent::Done(Err(e)) => action == BitmapAction::<E, Seq<u8>>::Return(Err(e)),
                BitmapEvent::Done(Ok(_)) => match asked {
                    BitmapAction::Create { .. } => action is NewWriter,
                    BitmapAction::NewWriter => action == BitmapAction::<E, Seq<u8>>::Write(
                        events[0]->pixels,
                    ),
                    BitmapAction::Write(_) => action is DetachBuffer,
                    BitmapAction::DetachBuffer => action is CopyFromBuffer,
                    _ => asked is CopyFromBuffer && action == BitmapAction::<
                        E,
                        Seq<u8>,
                    >::Return(Ok(())),
                },
            }
        }),
{
    let before = events.drop_last();
    lemma_bitmap_asked(before);
    if before.len() > 0 {
        lemma_bitmap_state(before);
        assert(events[0] == before[0]);
    }
    let earlier = bitmap_run(before);
    let outcome = bitmap_run(events);
    let (state, action) = bitmap_next(earlier.state, events.last());
    assert(outcome.actions == earlier.actions.push(action));
    assert(outcome.actions.last() == action);
}

/// The making of a bitmap takes every reply to what it asked for last, and
/// nothing else. Once it has returned it takes nothing any more.
pub proof fn law_making_takes_every_reply<E>(
    events: Seq<BitmapEvent<E, Seq<u8>>>,
    event: BitmapEvent<E, Seq<u8>>,
)
    requires
        bitmap_run(events).valid,
    ensures
        bitmap_run(events.push(event)).valid <==> if events.len() == 0 {
            event is Start
        } else {
            event is Done && !(bitmap_run(events).actions.last() is Return)
        },
{
    lemma_bitmap_asked(events);
    assert(events.push(event).drop_last() =~= events);
}

/// The model of a reply and of a request leaves nothing of them out: pixels are
/// seen byte by byte, and everything else as it is.
pub proof fn law_makings_are_seen_whole<E>(event: BitmapEvent<E, Vec<u8>>, action: BitmapAction<E, Vec<u8>>)
    ensures
        BitmapState::<Vec<u8>>::Ready@ is Ready,
        match event {
            BitmapEvent::Start { pixels, width, height } => event@ == (BitmapEvent::<
                E,
                Seq<u8>,
            >::Start { pixels: pixels@, width, height }),
            BitmapEvent::Done(r) => event@ == BitmapEvent::<E, Seq<u8>>::Done(r),
        },
        match action {
            BitmapAction::Create { format, width, height, alpha } => action@ == (BitmapAction::<
                E,
                Seq<u8>,
            >::Create { format, width, height, alpha }),
            BitmapAction::NewWriter => action@ is NewWriter,
            BitmapAction::Write(pixels) => action@ == BitmapAction::<E, Seq<u8>>::Write(pixels@),
            BitmapAction::DetachBuffer => action@ is DetachBuffer,
            BitmapAction::CopyFromBuffer => action@ is CopyFromBuffer,
            BitmapAction::Return(r) => action@ == BitmapAction::<E, Seq<u8>>::Return(r),
        },
{
}

/// A step can be made for every reply that is waited for, and it is the one that
/// the runs are made of.
pub proof fn law_making_is_made_of_steps<E>(
    state: BitmapState<Vec<u8>>,
    event: BitmapEvent<E, Vec<u8>>,
    result: (BitmapState<Vec<u8>>, BitmapAction<E, Vec<u8>>),
)
    requires
        bitmap_accepts(state@, event@),
    ensures
        call_requires(create_software_bitmap_from_bytes::<E>, (state, event)),
        call_ensures(create_software_bitmap_from_bytes::<E>, (state, event), result) ==> (result.0@, result.1@) == bitmap_next(
            state@,
            event@,
        ),
{
}

} // verus!
