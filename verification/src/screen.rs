//! An area of the screen, and the capture of its pixels.

use crate::machine::{lemma_run_push, run, Run};
use vstd::prelude::*;

verus! {

/// The raster operation that copies the source as it is.
pub const SRCCOPY: u32 = 0x00CC_0020;

/// The number of colour planes of a captured bitmap.
pub const PLANES: u16 = 1;

/// The number of bits of a captured pixel: blue, green, red and alpha.
pub const BITS_PER_PIXEL: u16 = 32;

/// The compression of a bitmap that is not compressed.
pub const BI_RGB: u32 = 0;

/// The size of the header of a bitmap, in bytes.
pub const HEADER_BYTES: u32 = 40;

/// The colours of a colour table stand in it as they are.
pub const DIB_RGB_COLORS: u32 = 0;

/// A rectangle on the screen.
#[derive(Clone, Copy, Debug)]
pub struct ScreenRect {
    pub left: i32,
    pub top: i32,
    pub right: i32,
    pub bottom: i32,
}

impl ScreenRect {
    /// The distance from the left edge to the right one.
    pub open spec fn width_spec(self) -> int {
        self.right - self.left
    }

    /// The distance from the top edge to the bottom one.
    pub open spec fn height_spec(self) -> int {
        self.bottom - self.top
    }

    /// Whether the rectangle has nothing in it.
    pub open spec fn is_empty_spec(self) -> bool {
        self.width_spec() <= 0 || self.height_spec() <= 0
    }

    /// Whether the measures of the rectangle are within the range of an `i32`.
    pub open spec fn is_measurable(self) -> bool {
        &&& i32::MIN <= self.width_spec() <= i32::MAX
        &&& i32::MIN <= self.height_spec() <= i32::MAX
    }

    /// The area that the rectangle covers.
    pub open spec fn area(self) -> Area {
        Area {
            left: self.left,
            top: self.top,
            width: self.width_spec() as i32,
            height: self.height_spec() as i32,
        }
    }

    /// The width of the rectangle.
    pub fn width(&self) -> (w: i32)
        requires
            i32::MIN <= self.width_spec() <= i32::MAX,
        ensures
            w == self.width_spec(),
    {
        self.right - self.left
    }

    /// The height of the rectangle.
    pub fn height(&self) -> (h: i32)
        requires
            i32::MIN <= self.height_spec() <= i32::MAX,
        ensures
            h == self.height_spec(),
    {
        self.bottom - self.top
    }
}

/// The area that is captured: its corner and its size.
#[derive(Clone, Copy, Debug, PartialEq, Eq)]
pub struct Area {
    pub left: i32,
    pub top: i32,
    pub width: i32,
    pub height: i32,
}

/// The graphics objects that a capture works with.
#[derive(Clone, Copy, Debug, PartialEq, Eq)]
pub struct Canvas {
    /// The device context of the screen.
    pub screen: usize,
    /// A device context in memory.
    pub memory: usize,
    /// The bitmap that the screen is copied to.
    pub bitmap: usize,
    /// The object that was selected into `memory` before the bitmap.
    pub previous: usize,
}

/// How the pixels are to be laid out.
#[derive(Clone, Copy, Debug, PartialEq, Eq)]
pub struct BitmapHeader {
    /// The size of the header itself, in bytes.
    pub size: u32,
    pub width: i32,
    /// A negative height has the rows run from the top to the bottom.
    pub height: i32,
    pub planes: u16,
    pub bit_count: u16,
    pub compression: u32,
    /// The size of the pixels in bytes; 0 leaves it to the rest of the header.
    pub image_size: u32,
    /// The resolution in pixels to a metre; 0 where it does not matter.
    pub x_resolution: i32,
    pub y_resolution: i32,
    /// The colours of the colour table that are used and that matter; 0 where
    /// there is no table.
    pub colors_used: u32,
    pub colors_important: u32,
}

/// How far a capture has come. `P` is the type of the pixels.
#[derive(Debug, PartialEq, Eq)]
pub enum AreaState<P> {
    /// Nothing has been asked for.
    Ready,
    /// Waiting for the device context of the screen.
    GettingScreen { area: Area },
    /// Waiting for a device context in memory.
    CreatingMemory { area: Area, screen: usize },
    /// Waiting for a bitmap.
    CreatingBitmap { area: Area, screen: usize, memory: usize },
    /// Waiting for the bitmap to be selected.
    Selecting { area: Area, screen: usize, memory: usize, bitmap: usize },
    /// Waiting for the screen to be copied.
    Copying { area: Area, canvas: Canvas },
    /// Waiting for the pixels.
    Fetching { area: Area, canvas: Canvas },
    /// Waiting for the earlier object to be selected again.
    Reselecting { area: Area, canvas: Canvas, pixels: P },
    /// Waiting for the bitmap to be deleted.
    DeletingBitmap { area: Area, canvas: Canvas, pixels: P },
    /// Waiting for the device context in memory to be deleted.
    DeletingMemory { area: Area, canvas: Canvas, pixels: P },
    /// Waiting for the device context of the screen to be released.
    Releasing { area: Area, pixels: P },
    /// The result has been returned.
    Finished,
}

/// The replies that a capture waits for.
#[derive(Debug)]
pub enum AreaEvent<E, P> {
    /// The capture begins.
    Start(ScreenRect),
    /// The handle of the object that was asked for.
    Handle(usize),
    /// Whether the screen was copied.
    Copied(Result<(), E>),
    /// The buffer that was handed out, with the pixels in it.
    Bits(P),
    /// What was asked for has been tried; how it went does not matter.
    Done,
}

/// What a capture asks for.
#[derive(Debug, PartialEq, Eq)]
pub enum AreaAction<E, P> {
    /// Get the device context of the screen.
    ScreenDc,
    /// Create a device context in memory that goes with this one.
    CompatibleDc { screen: usize },
    /// Create a bitmap of this size that goes with this device context.
    CompatibleBitmap { screen: usize, width: i32, height: i32 },
    /// Select an object into a device context.
    Select { dc: usize, object: usize },
    /// Copy an area of the screen to the device context in memory, with its
    /// corner at `x` and `y` there.
    Blit { memory: usize, x: i32, y: i32, screen: usize, area: Area, operation: u32 },
    /// Fill the buffer with the pixels of the bitmap: so many lines, from the
    /// first one given. `usage` says what a colour table holds.
    FetchBits {
        memory: usize,
        bitmap: usize,
        first_line: u32,
        lines: u32,
        header: BitmapHeader,
        usage: u32,
        buffer: P,
    },
    /// Delete an object.
    DeleteObject(usize),
    /// Delete a device context.
    DeleteDc(usize),
    /// Release the device context of the screen.
    ReleaseDc(usize),
    /// Return this result: the pixels, the width and the height.
    Return(Result<(P, i32, i32), E>),
}

/// The states with the pixels taken by their view.
pub type AreaModel = AreaState<Seq<u8>>;

/// The events with the pixels taken by their view.
pub type AreaEventModel<E> = AreaEvent<E, Seq<u8>>;

/// The actions with the pixels taken by their view.
pub type AreaActionModel<E> = AreaAction<E, Seq<u8>>;

impl View for AreaState<Vec<u8>> {
    type V = AreaModel;

    open spec fn view(&self) -> AreaModel {
        match *self {
            AreaState::Ready => AreaState::Ready,
            AreaState::GettingScreen { area } => AreaState::GettingScreen { area },
            AreaState::CreatingMemory { area, screen } => AreaState::CreatingMemory {
                area,
                screen,
            },
            AreaState::CreatingBitmap { area, screen, memory } => AreaState::CreatingBitmap {
                area,
                screen,
                memory,
            },
            AreaState::Selecting { area, screen, memory, bitmap } => AreaState::Selecting {
                area,
                screen,
                memory,
                bitmap,
            },
            AreaState::Copying { area, canvas } => AreaState::Copying { area, canvas },
            AreaState::Fetching { area, canvas } => AreaState::Fetching { area, canvas },
            AreaState::Reselecting { area, canvas, pixels } => AreaState::Reselecting {
                area,
                canvas,
                pixels: pixels@,
            },
            AreaState::DeletingBitmap { area, canvas, pixels } => AreaState::DeletingBitmap {
                area,
                canvas,
                pixels: pixels@,
            },
            AreaState::DeletingMemory { area, canvas, pixels } => AreaState::DeletingMemory {
                area,
                canvas,
                pixels: pixels@,
            },
            AreaState::Releasing { area, pixels } => AreaState::Releasing {
                area,
                pixels: pixels@,
            },
            AreaState::Finished => AreaState::Finished,
        }
    }
}

impl<E> View for AreaEvent<E, Vec<u8>> {
    type V = AreaEventModel<E>;

    open spec fn view(&self) -> AreaEventModel<E> {
        match *self {
            AreaEvent::Start(rect) => AreaEvent::Start(rect),
            AreaEvent::Handle(handle) => AreaEvent::Handle(handle),
            AreaEvent::Copied(r) => AreaEvent::Copied(r),
            AreaEvent::Bits(pixels) => AreaEvent::Bits(pixels@),
            AreaEvent::Done => AreaEvent::Done,
        }
    }
}

/// A captured area, with the pixels taken by their view.
pub open spec fn pixels_result<E>(r: Result<(Vec<u8>, i32, i32), E>) -> Result<
    (Seq<u8>, i32, i32),
    E,
> {
    match r {
        Ok((pixels, width, height)) => Ok((pixels@, width, height)),
        Err(e) => Err(e),
    }
}

impl<E> View for AreaAction<E, Vec<u8>> {
    type V = AreaActionModel<E>;

    open spec fn view(&self) -> AreaActionModel<E> {
        match *self {
            AreaAction::ScreenDc => AreaAction::ScreenDc,
            AreaAction::CompatibleDc { screen } => AreaAction::CompatibleDc { screen },
            AreaAction::CompatibleBitmap { screen, width, height } => AreaAction::CompatibleBitmap {
                screen,
                width,
                height,
            },
            AreaAction::Select { dc, object } => AreaAction::Select { dc, object },
            AreaAction::Blit { memory, x, y, screen, area, operation } => AreaAction::Blit {
                memory,
                x,
                y,
                screen,
                area,
                operation,
            },
            AreaAction::FetchBits {
                memory,
                bitmap,
                first_line,
                lines,
                header,
                usage,
                buffer,
            } => AreaAction::FetchBits {
                memory,
                bitmap,
                first_line,
                lines,
                header,
                usage,
                buffer: buffer@,
            },
            AreaAction::DeleteObject(object) => AreaAction::DeleteObject(object),
            AreaAction::DeleteDc(dc) => AreaAction::DeleteDc(dc),
            AreaAction::ReleaseDc(dc) => AreaAction::ReleaseDc(dc),
            AreaAction::Return(r) => AreaAction::Return(pixels_result(r)),
        }
    }
}

impl Area {
    /// Whether the area has something in it, and the number of bytes that its
    /// pixels take is within the range of an `i32`.
    pub open spec fn wf(self) -> bool {
        &&& self.width > 0
        &&& self.height > 0
        &&& self.width * self.height * 4 <= i32::MAX
    }
}

/// Whether an event is one that the state waits for.
pub open spec fn area_accepts<E>(state: AreaModel, event: AreaEventModel<E>) -> bool {
    match state {
        AreaState::Ready => event is Start && event->Start_0.is_measurable(),
        AreaState::GettingScreen { area } => event is Handle,
        AreaState::CreatingMemory { area, screen } => event is Handle,
        AreaState::CreatingBitmap { area, screen, memory } => event is Handle,
        AreaState::Selecting { area, screen, memory, bitmap } => event is Handle,
        AreaState::Copying { area, canvas } => event is Copied && (event->Copied_0 is Ok
            ==> area.wf()),
        AreaState::Fetching { area, canvas } => event is Bits && event->Bits_0.len()
            == blank_pixels(area).len(),
        AreaState::Reselecting { area, canvas, pixels } => event is Handle,
        AreaState::DeletingBitmap { area, canvas, pixels } => event is Done,
        AreaState::DeletingMemory { area, canvas, pixels } => event is Done,
        AreaState::Releasing { area, pixels } => event is Done,
        AreaState::Finished => false,
    }
}

/// The buffer for the pixels of an area: four bytes for each, all of them 0.
pub open spec fn blank_pixels(area: Area) -> Seq<u8> {
    Seq::new((area.width * area.height * 4) as nat, |i: int| 0u8)
}

/// The layout of the pixels of an area: rows from the top to the bottom, four
/// bytes to a pixel, not compressed.
pub open spec fn pixel_header(area: Area) -> BitmapHeader {
    BitmapHeader {
        size: HEADER_BYTES,
        width: area.width,
        height: (-area.height) as i32,
        planes: PLANES,
        bit_count: BITS_PER_PIXEL,
        compression: BI_RGB,
        image_size: 0,
        x_resolution: 0,
        y_resolution: 0,
        colors_used: 0,
        colors_important: 0,
    }
}

/// What an event makes of the state, and what is asked for next.
///
/// A rectangle with nothing in it has no pixels. Otherwise the area of the
/// screen is copied to a bitmap in memory, the pixels are fetched from there,
/// and all that was made for it is given up again. Where the screen cannot be
/// copied, that error is returned at once.
pub open spec fn area_next<E>(state: AreaModel, event: AreaEventModel<E>) -> (
    AreaModel,
    AreaActionModel<E>,
) {
    match state {
        AreaState::Ready => {
            let rect = event->Start_0;
            if rect.is_empty_spec() {
                (AreaState::Finished, AreaAction::Return(Ok((Seq::empty(), 0, 0))))
            } else {
                (
                    AreaState::GettingScreen { area: rect.area() },
                    AreaAction::ScreenDc,
                )
            }
        },
        AreaState::GettingScreen { area } => (
            AreaState::CreatingMemory { area, screen: event->Handle_0 },
            AreaAction::CompatibleDc { screen: event->Handle_0 },
        ),
        AreaState::CreatingMemory { area, screen } => (
            AreaState::CreatingBitmap { area, screen, memory: event->Handle_0 },
            AreaAction::CompatibleBitmap { screen, width: area.width, height: area.height },
        ),
        AreaState::CreatingBitmap { area, screen, memory } => (
            AreaState::Selecting { area, screen, memory, bitmap: event->Handle_0 },
            AreaAction::Select { dc: memory, object: event->Handle_0 },
        ),
        AreaState::Selecting { area, screen, memory, bitmap } => (
            AreaState::Copying {
                area,
                canvas: Canvas { screen, memory, bitmap, previous: event->Handle_0 },
            },
            AreaAction::Blit { memory, x: 0, y: 0, screen, area, operation: SRCCOPY },
        ),
        AreaState::Copying { area, canvas } => match event->Copied_0 {
            Ok(_) => (
                AreaState::Fetching { area, canvas },
                AreaAction::FetchBits {
                    memory: canvas.memory,
                    bitmap: canvas.bitmap,
                    first_line: 0,
                    lines: area.height as u32,
                    header: pixel_header(area),
                    usage: DIB_RGB_COLORS,
                    buffer: blank_pixels(area),
                },
            ),
            Err(e) => (AreaState::Finished, AreaAction::Return(Err(e))),
        },
        AreaState::Fetching { area, canvas } => (
            AreaState::Reselecting { area, canvas, pixels: event->Bits_0 },
            AreaAction::Select { dc: canvas.memory, object: canvas.previous },
        ),
        AreaState::Reselecting { area, canvas, pixels } => (
            AreaState::DeletingBitmap { area, canvas, pixels },
            AreaAction::DeleteObject(canvas.bitmap),
        ),
        AreaState::DeletingBitmap { area, canvas, pixels } => (
            AreaState::DeletingMemory { area, canvas, pixels },
            AreaAction::DeleteDc(canvas.memory),
        ),
        AreaState::DeletingMemory { area, canvas, pixels } => (
            AreaState::Releasing { area, pixels },
            AreaAction::ReleaseDc(canvas.screen),
        ),
        AreaState::Releasing { area, pixels } => (
            AreaState::Finished,
            AreaAction::Return(Ok((pixels, area.width, area.height))),
        ),
        AreaState::Finished => (state, AreaAction::ScreenDc),
    }
}

/// Makes the buffer for the pixels of an area.
fn make_buffer(area: Area) -> (buffer: Vec<u8>)
    requires
        area.wf(),
    ensures
        buffer@ == blank_pixels(area),
{
    assert(0 < area.width * area.height <= i32::MAX) by (nonlinear_arith)
        requires
            area.width > 0,
            area.height > 0,
            area.width * area.height * 4 <= i32::MAX,
    ;
    let size: usize = (area.width * area.height * 4) as usize;
    let buffer: Vec<u8> = vec![0; size];
    assert(buffer@ =~= blank_pixels(area));
    buffer
}

/// One step of capturing an area of the screen.
pub fn capture_screen_area<E>(state: AreaState<Vec<u8>>, event: AreaEvent<E, Vec<u8>>) -> (r: (
    AreaState<Vec<u8>>,
    AreaAction<E, Vec<u8>>,
))
    requires
        area_accepts(state@, event@),
    ensures
        (r.0@, r.1@) == area_next(state@, event@),
{
    match (state, event) {
        (AreaState::Ready, AreaEvent::Start(rect)) => {
            let width: i32 = rect.width();
            let height: i32 = rect.height();
            if width <= 0 || height <= 0 {
                let pixels: Vec<u8> = Vec::new();
                (AreaState::Finished, AreaAction::Return(Ok((pixels, 0, 0))))
            } else {
                let area = Area { left: rect.left, top: rect.top, width, height };
                (AreaState::GettingScreen { area }, AreaAction::ScreenDc)
            }
        },
        (AreaState::GettingScreen { area }, AreaEvent::Handle(screen)) => (
            AreaState::CreatingMemory { area, screen },
            AreaAction::CompatibleDc { screen },
        ),
        (AreaState::CreatingMemory { area, screen }, AreaEvent::Handle(memory)) => (
            AreaState::CreatingBitmap { area, screen, memory },
            AreaAction::CompatibleBitmap { screen, width: area.width, height: area.height },
        ),
        (AreaState::CreatingBitmap { area, screen, memory }, AreaEvent::Handle(bitmap)) => (
            AreaState::Selecting { area, screen, memory, bitmap },
            AreaAction::Select { dc: memory, object: bitmap },
        ),
        (AreaState::Selecting { area, screen, memory, bitmap }, AreaEvent::Handle(previous)) => (
            AreaState::Copying { area, canvas: Canvas { screen, memory, bitmap, previous } },
            AreaAction::Blit { memory, x: 0, y: 0, screen, area, operation: SRCCOPY },
        ),
        (AreaState::Copying { area, canvas }, AreaEvent::Copied(Ok(()))) => {
            let header = BitmapHeader {
                size: HEADER_BYTES,
                width: area.width,
                height: -area.height,
                planes: PLANES,
                bit_count: BITS_PER_PIXEL,
                compression: BI_RGB,
                image_size: 0,
                x_resolution: 0,
                y_resolution: 0,
                colors_used: 0,
                colors_important: 0,
            };
            let buffer = make_buffer(area);
            (
                AreaState::Fetching { area, canvas },
                AreaAction::FetchBits {
                    memory: canvas.memory,
                    bitmap: canvas.bitmap,
                    first_line: 0,
                    lines: area.height as u32,
                    header,
                    usage: DIB_RGB_COLORS,
                    buffer,
                },
            )
        },
        (AreaState::Copying { area, canvas }, AreaEvent::Copied(Err(e))) => (
            AreaState::Finished,
            AreaAction::Return(Err(e)),
        ),
        (AreaState::Fetching { area, canvas }, AreaEvent::Bits(pixels)) => (
            AreaState::Reselecting { area, canvas, pixels },
            AreaAction::Select { dc: canvas.memory, object: canvas.previous },
        ),
        (AreaState::Reselecting { area, canvas, pixels }, _) => (
            AreaState::DeletingBitmap { area, canvas, pixels },
            AreaAction::DeleteObject(canvas.bitmap),
        ),
        (AreaState::DeletingBitmap { area, canvas, pixels }, _) => (
            AreaState::DeletingMemory { area, canvas, pixels },
            AreaAction::DeleteDc(canvas.memory),
        ),
        (AreaState::DeletingMemory { area, canvas, pixels }, _) => (
            AreaState::Releasing { area, pixels },
            AreaAction::ReleaseDc(canvas.screen),
        ),
        (AreaState::Releasing { area, pixels }, _) => (
            AreaState::Finished,
            AreaAction::Return(Ok((pixels, area.width, area.height))),
        ),
        _ => vstd::pervasive::unreached(),
    }
}

/// The run of a capture over a sequence of events.
pub open spec fn area_run<E>(events: Seq<AreaEventModel<E>>) -> Run<
    AreaModel,
    AreaActionModel<E>,
> {
    run(
        AreaState::Ready,
        |s: AreaModel, e: AreaEventModel<E>| area_accepts(s, e),
        |s: AreaModel, e: AreaEventModel<E>| area_next(s, e),
        events,
    )
}

proof fn lemma_area_push<E>(events: Seq<AreaEventModel<E>>, event: AreaEventModel<E>)
    ensures
        ({
            let before = area_run(events);
            let after = area_run(events.push(event));
            &&& after.valid == (before.valid && area_accepts(before.state, event))
            &&& after.state == area_next(before.state, event).0
            &&& after.actions == before.actions.push(area_next(before.state, event).1)
        }),
{
    lemma_run_push(
        AreaState::Ready,
        |s: AreaModel, e: AreaEventModel<E>| area_accepts(s, e),
        |s: AreaModel, e: AreaEventModel<E>| area_next(s, e),
        events,
        event,
    );
}

/// A rectangle with nothing in it has no pixels and no size, and the screen is
/// not touched for it.
pub proof fn law_empty_rectangles_have_no_pixels<E>(rect: ScreenRect)
    requires
        rect.is_measurable(),
        rect.is_empty_spec(),
    ensures
        ({
            let outcome = area_run(seq![AreaEventModel::<E>::Start(rect)]);
            &&& outcome.valid
            &&& outcome.state is Finished
            &&& outcome.actions =~= seq![AreaActionModel::<E>::Return(Ok((Seq::empty(), 0, 0)))]
        }),
{
    let start = AreaEventModel::<E>::Start(rect);
    let e0 = Seq::<AreaEventModel<E>>::empty();
    lemma_area_push(e0, start);
    assert(e0.push(start) =~= seq![start]);
}

/// The replies to a capture of which every call succeeds.
pub open spec fn capture_replies<E>(
    rect: ScreenRect,
    canvas: Canvas,
    pixels: Seq<u8>,
    deselected: usize,
) -> Seq<AreaEventModel<E>> {
    seq![
        AreaEvent::Start(rect),
        AreaEvent::Handle(canvas.screen),
        AreaEvent::Handle(canvas.memory),
        AreaEvent::Handle(canvas.bitmap),
        AreaEvent::Handle(canvas.previous),
        AreaEvent::Copied(Ok(())),
        AreaEvent::Bits(pixels),
        AreaEvent::Handle(deselected),
        AreaEvent::Done,
        AreaEvent::Done,
        AreaEvent::Done,
    ]
}

/// What a capture of which every call succeeds comes to, call by call: the
/// area is copied from the screen and fetched into a buffer with four bytes to
/// a pixel; the earlier object is selected again, and the bitmap, the device
/// context in memory and that of the screen are given up, in this order; and
/// the result is what was fetched, with the size of the rectangle.
pub proof fn law_capture_gives_up_what_it_made<E>(
    rect: ScreenRect,
    canvas: Canvas,
    pixels: Seq<u8>,
    deselected: usize,
)
    requires
        rect.is_measurable(),
        !rect.is_empty_spec(),
        rect.width_spec() * rect.height_spec() * 4 <= i32::MAX,
        pixels.len() == rect.width_spec() * rect.height_spec() * 4,
    ensures
        ({
            let outcome = area_run(capture_replies::<E>(rect, canvas, pixels, deselected));
            let area = rect.area();
            &&& outcome.valid
            &&& outcome.state is Finished
            &&& outcome.actions =~= seq![
                AreaActionModel::<E>::ScreenDc,
                AreaAction::CompatibleDc { screen: canvas.screen },
                AreaAction::CompatibleBitmap {
                    screen: canvas.screen,
                    width: area.width,
                    height: area.height,
                },
                AreaAction::Select { dc: canvas.memory, object: canvas.bitmap },
                AreaAction::Blit {
                    memory: canvas.memory,
                    x: 0,
                    y: 0,
                    screen: canvas.screen,
                    area,
                    operation: SRCCOPY,
                },
                AreaAction::FetchBits {
                    memory: canvas.memory,
                    bitmap: canvas.bitmap,
                    first_line: 0,
                    lines: area.height as u32,
                    header: pixel_header(area),
                    usage: DIB_RGB_COLORS,
                    buffer: blank_pixels(area),
                },
                AreaAction::Select { dc: canvas.memory, object: canvas.previous },
                AreaAction::DeleteObject(canvas.bitmap),
                AreaAction::DeleteDc(canvas.memory),
                AreaAction::ReleaseDc(canvas.screen),
                AreaAction::Return(Ok((pixels, area.width, area.height))),
            ]
            &&& blank_pixels(area).len() == rect.width_spec() * rect.height_spec() * 4
        }),
{
    let all = capture_replies::<E>(rect, canvas, pixels, deselected);
    let e0 = Seq::<AreaEventModel<E>>::empty();
    let e1 = e0.push(all[0]);
    let e2 = e1.push(all[1]);
    let e3 = e2.push(all[2]);
    let e4 = e3.push(all[3]);
    let e5 = e4.push(all[4]);
    let e6 = e5.push(all[5]);
    let e7 = e6.push(all[6]);
    let e8 = e7.push(all[7]);
    let e9 = e8.push(all[8]);
    let e10 = e9.push(all[9]);
    let e11 = e10.push(all[10]);
    lemma_area_push(e0, all[0]);
    lemma_area_push(e1, all[1]);
    lemma_area_push(e2, all[2]);
    lemma_area_push(e3, all[3]);
    lemma_area_push(e4, all[4]);
    lemma_area_push(e5, all[5]);
    lemma_area_push(e6, all[6]);
    lemma_area_push(e7, all[7]);
    lemma_area_push(e8, all[8]);
    lemma_area_push(e9, all[9]);
    lemma_area_push(e10, all[10]);
    assert(e11 =~= all);
}

/// What is known of the state after any replies that a capture waited for.
proof fn lemma_area_state<E>(events: Seq<AreaEventModel<E>>)
    requires
        area_run(events).valid,
        events.len() > 0,
    ensures
        ({
            let outcome = area_run(events);
            let rect = events[0]->Start_0;
            let size = rect.width_spec() * rect.height_spec() * 4;
            &&& events[0] is Start
            &&& rect.is_measurable()
            &&& !(outcome.state is Finished) ==> !rect.is_empty_spec()
            &&& match outcome.state {
                AreaState::Ready => false,
                AreaState::GettingScreen { area } => area == rect.area(),
                AreaState::CreatingMemory { area, screen } => area == rect.area(),
                AreaState::CreatingBitmap { area, screen, memory } => area == rect.area(),
                AreaState::Selecting { area, screen, memory, bitmap } => area == rect.area(),
                AreaState::Copying { area, canvas } => area == rect.area(),
                AreaState::Fetching { area, canvas } => area == rect.area(),
                AreaState::Reselecting { area, canvas, pixels } => area == rect.area()
                    && pixels.len() == size,
                AreaState::DeletingBitmap { area, canvas, pixels } => area == rect.area()
                    && pixels.len() == size,
                AreaState::DeletingMemory { area, canvas, pixels } => area == rect.area()
                    && pixels.len() == size,
                AreaState::Releasing { area, pixels } => area == rect.area() && pixels.len()
                    == size,
                AreaState::Finished => {
                    &&& outcome.actions.last() is Return
                    &&& match outcome.actions.last()->Return_0 {
                        Ok((pixels, width, height)) => if rect.is_empty_spec() {
                            pixels.len() == 0 && width == 0 && height == 0
                        } else {
                            pixels.len() == size && width == rect.width_spec() && height
                                == rect.height_spec()
                        },
                        Err(e) => events.last() == AreaEventModel::<E>::Copied(Err(e)),
                    }
                    &&& outcome.actions.last()->Return_0 is Ok ==> !(events.last() is Copied)
                },
            }
        }),
    decreases events.len(),
{
    let before = events.drop_last();
    let earlier = area_run(before);
    let outcome = area_run(events);
    let (state, action) = area_next(earlier.state, events.last());
    if before.len() > 0 {
        lemma_area_state(before);
    } else {
        assert(earlier.state is Ready);
        assert(events[0] == events.last());
    }
    let rect = events[0]->Start_0;
    if !rect.is_empty_spec() {
        assert(rect.width_spec() * rect.height_spec() * 4 > 0) by (nonlinear_arith)
            requires
                rect.width_spec() > 0,
                rect.height_spec() > 0,
        ;
    }
    assert(outcome.actions == earlier.actions.push(action));
}

/// Whatever the replies were, a capture that succeeds returns four bytes for
/// each pixel of the size that it returns. That is the size of the rectangle,
/// or nothing at all exactly where the rectangle has nothing in it.
pub proof fn law_captures_have_four_bytes_to_a_pixel<E>(events: Seq<AreaEventModel<E>>)
    requires
        area_run(events).valid,
        area_run(events).state is Finished,
    ensures
        events.len() > 0,
        events[0] is Start,
        area_run(events).actions.last() is Return,
        area_run(events).actions.last()->Return_0 matches Ok((pixels, width, height)) ==> {
            let rect = events[0]->Start_0;
            &&& width >= 0
            &&& height >= 0
            &&& pixels.len() == width * height * 4
            &&& pixels.len() == 0 <==> rect.is_empty_spec()
            &&& (width == 0 && height == 0) <==> rect.is_empty_spec()
            &&& !rect.is_empty_spec() ==> width == rect.width_spec() && height
                == rect.height_spec()
        },
{
    assert(events.len() > 0);
    lemma_area_state(events);
    let rect = events[0]->Start_0;
    if !rect.is_empty_spec() {
        assert(rect.width_spec() * rect.height_spec() * 4 > 0) by (nonlinear_arith)
            requires
                rect.width_spec() > 0,
                rect.height_spec() > 0,
        ;
    }
}

/// A capture fails exactly where the screen could not be copied, and with that
/// error.
pub proof fn law_captures_fail_with_the_copy<E>(events: Seq<AreaEventModel<E>>, e: E)
    requires
        area_run(events).valid,
        area_run(events).state is Finished,
    ensures
        events.len() > 0,
        area_run(events).actions.last() == AreaActionModel::<E>::Return(Err(e)) <==> events.last()
            == AreaEventModel::<E>::Copied(Err(e)),
{
    assert(events.len() > 0);
    lemma_area_state(events);
}

/// The graphics objects that the first replies of a capture named.
pub open spec fn canvas_of<E>(events: Seq<AreaEventModel<E>>) -> Canvas {
    Canvas {
        screen: events[1]->Handle_0,
        memory: events[2]->Handle_0,
        bitmap: events[3]->Handle_0,
        previous: events[4]->Handle_0,
    }
}

/// What the events were, going by the state that they led to.
proof fn lemma_area_events<E>(events: Seq<AreaEventModel<E>>)
    requires
        area_run(events).valid,
        events.len() > 0,
        !events[0]->Start_0.is_empty_spec(),
    ensures
        ({
            let outcome = area_run(events);
            let n = events.len();
            &&& events[0] is Start
            &&& forall|i: int| 0 < i < n && i < 5 ==> #[trigger] events[i] is Handle
            &&& n > 5 ==> events[5] is Copied
            &&& n > 6 ==> events[5]->Copied_0 is Ok && events[6] is Bits
            &&& n > 7 ==> events[7] is Handle
            &&& forall|i: int| 7 < i < n ==> #[trigger] events[i] is Done
            &&& match outcome.state {
                AreaState::Ready => false,
                AreaState::GettingScreen { area } => n == 1,
                AreaState::CreatingMemory { area, screen } => n == 2,
                AreaState::CreatingBitmap { area, screen, memory } => n == 3,
                AreaState::Selecting { area, screen, memory, bitmap } => n == 4,
                AreaState::Copying { area, canvas } => n == 5,
                AreaState::Fetching { area, canvas } => n == 6 && events[5]->Copied_0 is Ok,
                AreaState::Reselecting { area, canvas, pixels } => n == 7 && pixels
                    == events[6]->Bits_0,
                AreaState::DeletingBitmap { area, canvas, pixels } => n == 8 && pixels
                    == events[6]->Bits_0,
                AreaState::DeletingMemory { area, canvas, pixels } => n == 9 && pixels
                    == events[6]->Bits_0,
                AreaState::Releasing { area, pixels } => n == 10 && pixels == events[6]->Bits_0,
                AreaState::Finished => outcome.actions.last()->Return_0 matches Ok((pixels, w, h))
                    ==> n == 11 && pixels == events[6]->Bits_0,
            }
        }),
    decreases events.len(),
{
    let before = events.drop_last();
    let earlier = area_run(before);
    let outcome = area_run(events);
    let (state, action) = area_next(earlier.state, events.last());
    assert(outcome.actions == earlier.actions.push(action));
    assert(outcome.actions.last() == action);
    if before.len() == 0 {
        assert(earlier.state is Ready);
        assert(events[0] == events.last());
    } else {
        assert(before[0] == events[0]);
        lemma_area_events(before);
        assert(forall|i: int| 0 <= i < before.len() ==> #[trigger] events[i] == before[i]);
    }
}

/// There is no other way to succeed: whatever the replies were, a capture of a
/// rectangle with something in it that succeeds had every reply of
/// [`capture_replies`], so that all that it made was given up again.
pub proof fn law_every_success_is_a_whole_capture<E>(events: Seq<AreaEventModel<E>>)
    requires
        area_run(events).valid,
        area_run(events).state is Finished,
        !events[0]->Start_0.is_empty_spec(),
    ensures
        area_run(events).actions.last() is Return,
        area_run(events).actions.last()->Return_0 matches Ok((pixels, width, height)) ==> events
            == capture_replies::<E>(
            events[0]->Start_0,
            canvas_of(events),
            pixels,
            events[7]->Handle_0,
        ),
{
    assert(events.len() > 0);
    lemma_area_state(events);
    lemma_area_events(events);
    if let Ok((pixels, width, height)) = area_run(events).actions.last()->Return_0 {
        assert(events[5]->Copied_0->Ok_0 == ());
        assert(events =~= capture_replies::<E>(
            events[0]->Start_0,
            canvas_of(events),
            pixels,
            events[7]->Handle_0,
        ));
    }
}

/// The measures of a rectangle take its edges to each other.
pub proof fn law_measures_span_the_edges(rect: ScreenRect, measure: i32)
    ensures
        call_ensures(ScreenRect::width, (&rect,), measure) ==> rect.left + measure == rect.right,
        call_ensures(ScreenRect::height, (&rect,), measure) ==> rect.top + measure == rect.bottom,
        rect.left + rect.width_spec() == rect.right,
        rect.top + rect.height_spec() == rect.bottom,
        rect.is_empty_spec() <==> rect.right <= rect.left || rect.bottom <= rect.top,
{
}

/// What the objects are, and what was asked for last, going by the state.
proof fn lemma_area_asked<E>(events: Seq<AreaEventModel<E>>)
    requires
        area_run(events).valid,
        events.len() > 0,
    ensures
        ({
            let outcome = area_run(events);
            let asked = outcome.actions.last();
            match outcome.state {
                AreaState::Ready => false,
                AreaState::GettingScreen { area } => asked is ScreenDc,
                AreaState::CreatingMemory { area, screen } => asked is CompatibleDc && screen
                    == events[1]->Handle_0,
                AreaState::CreatingBitmap { area, screen, memory } => asked is CompatibleBitmap
                    && screen == events[1]->Handle_0 && memory == events[2]->Handle_0,
                AreaState::Selecting { area, screen, memory, bitmap } => asked is Select && screen
                    == events[1]->Handle_0 && memory == events[2]->Handle_0 && bitmap
                    == events[3]->Handle_0,
                AreaState::Copying { area, canvas } => asked is Blit && canvas == canvas_of(events),
                AreaState::Fetching { area, canvas } => asked is FetchBits && canvas == canvas_of(
                    events,
                ),
                AreaState::Reselecting { area, canvas, pixels } => asked is Select && canvas
                    == canvas_of(events),
                AreaState::DeletingBitmap { area, canvas, pixels } => asked is DeleteObject
                    && canvas == canvas_of(events),
                AreaState::DeletingMemory { area, canvas, pixels } => asked is DeleteDc && canvas
                    == canvas_of(events),
                AreaState::Releasing { area, pixels } => asked is ReleaseDc,
                AreaState::Finished => asked is Return,
            }
        }),
    decreases events.len(),
{
    let before = events.drop_last();
    let earlier = area_run(before);
    let outcome = area_run(events);
    let (state, action) = area_next(earlier.state, events.last());
    assert(outcome.actions == earlier.actions.push(action));
    assert(outcome.actions.last() == action);
    if before.len() == 0 {
        assert(earlier.state is Ready);
        assert(events[0] == events.last());
    } else {
        assert(before[0] == events[0]);
        lemma_area_asked(before);
        lemma_area_state(before);
        if !events[0]->Start_0.is_empty_spec() {
            lemma_area_events(before);
        }
        assert(forall|i: int| 0 <= i < before.len() ==> #[trigger] events[i] == before[i]);
        assert(events[events.len() - 1] == events.last());
    }
}

/// What each reply leads to, in every run. A rectangle is empty where its right
/// edge is not beyond the left one or its bottom not below the top, and nothing
/// is asked for then. Any other is captured where it stands: the bitmap has the
/// rectangle's own size, the screen is copied from the rectangle's own corner
/// to the corner of the bitmap, and the pixels are fetched from the first line
/// to the last into a blank buffer with four bytes to a pixel. Then every object
/// that was made is given up, and the pixels are returned as they were fetched.
pub proof fn law_capturing_goes_step_by_step<E>(events: Seq<AreaEventModel<E>>)
    requires
        area_run(events).valid,
        events.len() > 0,
    ensures
        events[0] is Start,
        ({
            let asked = area_run(events.drop_last()).actions.last();
            let action = area_run(events).actions.last();
            let rect = events[0]->Start_0;
            let screen = events[1]->Handle_0;
            let memory = events[2]->Handle_0;
            let bitmap = events[3]->Handle_0;
            match events.last() {
                AreaEvent::Start(_) => events.len() == 1 && if rect.right <= rect.left
                    || rect.bottom <= rect.top {
                    action == AreaActionModel::<E>::Return(Ok((Seq::empty(), 0, 0)))
                } else {
                    action is ScreenDc
                },
                AreaEvent::Handle(handle) => match asked {
                    AreaAction::ScreenDc => action == (AreaActionModel::<E>::CompatibleDc {
                        screen: handle,
                    }),
                    AreaAction::CompatibleDc { .. } => {
                        &&& action is CompatibleBitmap
                        &&& action->CompatibleBitmap_screen == screen
                        &&& action->width == rect.right - rect.left
                        &&& action->height == rect.bottom - rect.top
                    },
                    AreaAction::CompatibleBitmap { .. } => action == (AreaActionModel::<
                        E,
                    >::Select { dc: memory, object: handle }),
                    _ => asked is Select && if events.len() == 5 {
                        &&& action is Blit
                        &&& action->Blit_memory == memory
                        &&& action->Blit_screen == screen
                        &&& action->x == 0 && action->y == 0
                        &&& action->area.left == rect.left
                        &&& action->area.top == rect.top
                        &&& action->area.width == rect.right - rect.left
                        &&& action->area.height == rect.bottom - rect.top
                        &&& action->operation == SRCCOPY
                    } else {
                        action == AreaActionModel::<E>::DeleteObject(bitmap)
                    },
                },
                AreaEvent::Copied(Err(e)) => action == AreaActionModel::<E>::Return(Err(e)),
                AreaEvent::Copied(Ok(_)) => {
                    &&& action is FetchBits
                    &&& action->FetchBits_memory == memory
                    &&& action->bitmap == bitmap
                    &&& action->first_line == 0
                    &&& action->lines == rect.bottom - rect.top
                    &&& action->usage == DIB_RGB_COLORS
                    &&& action->header.size == HEADER_BYTES
                    &&& action->header.width == rect.right - rect.left
                    &&& action->header.height == rect.top - rect.bottom
                    &&& action->header.planes == PLANES
                    &&& action->header.bit_count == BITS_PER_PIXEL
                    &&& action->header.compression == BI_RGB
                    &&& action->header.image_size == 0
                    &&& action->header.x_resolution == 0 && action->header.y_resolution == 0
                    &&& action->header.colors_used == 0 && action->header.colors_important == 0
                    &&& action->buffer.len() == (rect.right - rect.left) * (rect.bottom - rect.top)
                        * 4
                    &&& forall|i: int|
                        0 <= i < action->buffer.len() ==> #[trigger] action->buffer[i] == 0
                },
                AreaEvent::Bits(_) => action == (AreaActionModel::<E>::Select {
                    dc: memory,
                    object: events[4]->Handle_0,
                }),
                AreaEvent::Done => match asked {
                    AreaAction::DeleteObject(_) => action == AreaActionModel::<E>::DeleteDc(memory),
                    AreaAction::DeleteDc(_) => action == AreaActionModel::<E>::ReleaseDc(screen),
                    _ => {
                        &&& asked is ReleaseDc
                        &&& action is Return
                        &&& action->Return_0 is Ok
                        &&& action->Return_0->Ok_0.0 == events[6]->Bits_0
                        &&& action->Return_0->Ok_0.1 == rect.right - rect.left
                        &&& action->Return_0->Ok_0.2 == rect.bottom - rect.top
                    },
                },
            }
        }),
{
    let before = events.drop_last();
    let earlier = area_run(before);
    let outcome = area_run(events);
    let (state, action) = area_next(earlier.state, events.last());
    assert(outcome.actions == earlier.actions.push(action));
    assert(outcome.actions.last() == action);
    lemma_area_state(events);
    if before.len() == 0 {
        assert(earlier.state is Ready);
        assert(events[0] == events.last());
    } else {
        assert(before[0] == events[0]);
        lemma_area_asked(before);
        lemma_area_state(before);
        lemma_area_events(before);
        assert(forall|i: int| 0 <= i < before.len() ==> #[trigger] events[i] == before[i]);
        let rect = events[0]->Start_0;
        assert(rect.width_spec() * rect.height_spec() * 4 > 0) by (nonlinear_arith)
            requires
                rect.width_spec() > 0,
                rect.height_spec() > 0,
        ;
    }
}

/// A capture takes every reply to what it asked for last, and nothing else. It
/// begins with any rectangle whose measures fit; once the screen was copied,
/// the bytes of the pixels have to fit as well, and the buffer comes back with
/// its own length. Once it has returned it takes nothing any more.
pub proof fn law_capturing_takes_every_reply<E>(
    events: Seq<AreaEventModel<E>>,
    event: AreaEventModel<E>,
)
    requires
        area_run(events).valid,
    ensures
        area_run(events.push(event)).valid <==> if events.len() == 0 {
            &&& event is Start
            &&& i32::MIN <= event->Start_0.right - event->Start_0.left <= i32::MAX
            &&& i32::MIN <= event->Start_0.bottom - event->Start_0.top <= i32::MAX
        } else {
            let rect = events[0]->Start_0;
            let bytes = (rect.right - rect.left) * (rect.bottom - rect.top) * 4;
            match area_run(events).actions.last() {
                AreaAction::Blit { .. } => event is Copied && (event->Copied_0 is Ok ==> bytes
                    <= i32::MAX),
                AreaAction::FetchBits { .. } => event is Bits && event->Bits_0.len() == bytes,
                AreaAction::DeleteObject(_) => event is Done,
                AreaAction::DeleteDc(_) => event is Done,
                AreaAction::ReleaseDc(_) => event is Done,
                AreaAction::Return(_) => false,
                _ => event is Handle,
            }
        },
{
    assert(events.push(event).drop_last() =~= events);
    if events.len() > 0 {
        lemma_area_asked(events);
        lemma_area_state(events);
        let rect = events[0]->Start_0;
        if !rect.is_empty_spec() {
            assert(rect.width_spec() * rect.height_spec() * 4 > 0) by (nonlinear_arith)
                requires
                    rect.width_spec() > 0,
                    rect.height_spec() > 0,
            ;
        }
    } else {
        assert(area_run(events).state is Ready);
    }
}

/// The model of a reply and of a request leaves nothing of them out: pixels are
/// seen byte by byte, and everything else as it is.
pub proof fn law_captures_are_seen_whole<E>(event: AreaEvent<E, Vec<u8>>, action: AreaAction<E, Vec<u8>>)
    ensures
        AreaState::<Vec<u8>>::Ready@ is Ready,
        match event {
            AreaEvent::Start(rect) => event@ == AreaEventModel::<E>::Start(rect),
            AreaEvent::Handle(handle) => event@ == AreaEventModel::<E>::Handle(handle),
            AreaEvent::Copied(r) => event@ == AreaEventModel::<E>::Copied(r),
            AreaEvent::Bits(pixels) => event@ == AreaEventModel::<E>::Bits(pixels@),
            AreaEvent::Done => event@ is Done,
        },
        match action {
            AreaAction::ScreenDc => action@ is ScreenDc,
            AreaAction::CompatibleDc { screen } => action@ == (AreaActionModel::<
                E,
            >::CompatibleDc { screen }),
            AreaAction::CompatibleBitmap { screen, width, height } => action@
                == (AreaActionModel::<E>::CompatibleBitmap { screen, width, height }),
            AreaAction::Select { dc, object } => action@ == (AreaActionModel::<E>::Select {
                dc,
                object,
            }),
            AreaAction::Blit { memory, x, y, screen, area, operation } => action@
                == (AreaActionModel::<E>::Blit { memory, x, y, screen, area, operation }),
            AreaAction::FetchBits {
                memory,
                bitmap,
                first_line,
                lines,
                header,
                usage,
                buffer,
            } => action@ == (AreaActionModel::<E>::FetchBits {
                memory,
                bitmap,
                first_line,
                lines,
                header,
                usage,
                buffer: buffer@,
            }),
            AreaAction::DeleteObject(object) => action@ == AreaActionModel::<E>::DeleteObject(
                object,
            ),
            AreaAction::DeleteDc(dc) => action@ == AreaActionModel::<E>::DeleteDc(dc),
            AreaAction::ReleaseDc(dc) => action@ == AreaActionModel::<E>::ReleaseDc(dc),
            AreaAction::Return(Ok((pixels, width, height))) => action@ == AreaActionModel::<
                E,
            >::Return(Ok((pixels@, width, height))),
            AreaAction::Return(Err(e)) => action@ == AreaActionModel::<E>::Return(Err(e)),
        },
{
}

/// A step can be made for every reply that is waited for, and it is the one that
/// the runs are made of.
pub proof fn law_capturing_is_made_of_steps<E>(
    state: AreaState<Vec<u8>>,
    event: AreaEvent<E, Vec<u8>>,
    result: (AreaState<Vec<u8>>, AreaAction<E, Vec<u8>>),
)
    requires
        area_accepts(state@, event@),
    ensures
        call_requires(capture_screen_area::<E>, (state, event)),
        call_ensures(capture_screen_area::<E>, (state, event), result) ==> (result.0@, result.1@) == area_next(
            state@,
            event@,
        ),
{
}

/// Every rectangle with something in it is copied from where it stands on the
/// screen, and with the size that its edges give it.
pub proof fn law_screen_is_copied_where_the_rectangle_stands<E>(rect: ScreenRect, canvas: Canvas)
    requires
        rect.left < rect.right,
        rect.top < rect.bottom,
        rect.right - rect.left <= i32::MAX,
        rect.bottom - rect.top <= i32::MAX,
    ensures
        ({
            let outcome = area_run(
                seq![
                    AreaEventModel::<E>::Start(rect),
                    AreaEvent::Handle(canvas.screen),
                    AreaEvent::Handle(canvas.memory),
                    AreaEvent::Handle(canvas.bitmap),
                    AreaEvent::Handle(canvas.previous),
                ],
            );
            let action = outcome.actions.last();
            &&& outcome.valid
            &&& action is Blit
            &&& action->Blit_memory == canvas.memory
            &&& action->Blit_screen == canvas.screen
            &&& action->area.left == rect.left
            &&& action->area.top == rect.top
            &&& action->area.width == rect.right - rect.left
            &&& action->area.height == rect.bottom - rect.top
        }),
{
    let all = seq![
        AreaEventModel::<E>::Start(rect),
        AreaEvent::Handle(canvas.screen),
        AreaEvent::Handle(canvas.memory),
        AreaEvent::Handle(canvas.bitmap),
        AreaEvent::Handle(canvas.previous),
    ];
    let e0 = Seq::<AreaEventModel<E>>::empty();
    let e1 = e0.push(all[0]);
    let e2 = e1.push(all[1]);
    let e3 = e2.push(all[2]);
    let e4 = e3.push(all[3]);
    let e5 = e4.push(all[4]);
    lemma_area_push(e0, all[0]);
    lemma_area_push(e1, all[1]);
    lemma_area_push(e2, all[2]);
    lemma_area_push(e3, all[3]);
    lemma_area_push(e4, all[4]);
    assert(e5 =~= all);
}

} // verus!
