use selection_monitor::bitmap::{
    create_software_bitmap_from_bytes, AlphaMode, BitmapAction, BitmapEvent, BitmapState,
    PixelFormat,
};
use selection_monitor::ocr::{capture_and_recognize, OcrAction, OcrEvent, OcrState};
use selection_monitor::screen::{
    capture_screen_area, Area, AreaAction, AreaEvent, AreaState, BitmapHeader, ScreenRect,
};

fn rect(left: i32, top: i32, right: i32, bottom: i32) -> ScreenRect {
    ScreenRect { left, top, right, bottom }
}

#[test]
fn rectangles_have_a_size() {
    let r: ScreenRect = rect(10, 20, 110, 50);
    assert_eq!((r.width(), r.height()), (100, 30));
    let r: ScreenRect = rect(5, 7, 3, 7);
    assert_eq!((r.width(), r.height()), (-2, 0));
    let r: ScreenRect = rect(-1, i32::MIN, i32::MAX - 1, -1);
    assert_eq!((r.width(), r.height()), (i32::MAX, i32::MAX));
}

fn capture(events: Vec<AreaEvent<u32, Vec<u8>>>) -> Vec<AreaAction<u32, Vec<u8>>> {
    let mut state: AreaState<Vec<u8>> = AreaState::Ready;
    let mut actions: Vec<AreaAction<u32, Vec<u8>>> = Vec::new();
    for event in events {
        let (next, action) = capture_screen_area(state, event);
        state = next;
        actions.push(action);
    }
    actions
}

#[test]
fn an_area_is_captured_and_cleaned_up_after() {
    let area: Area = Area { left: -4, top: 9, width: 3, height: 2 };
    let pixels: Vec<u8> = (0..24).collect();
    let actions = capture(vec![
        AreaEvent::Start(rect(-4, 9, -1, 11)),
        AreaEvent::Handle(1),
        AreaEvent::Handle(2),
        AreaEvent::Handle(3),
        AreaEvent::Handle(4),
        AreaEvent::Copied(Ok(())),
        AreaEvent::Bits(pixels.clone()),
        AreaEvent::Handle(3),
        AreaEvent::Done,
        AreaEvent::Done,
        AreaEvent::Done,
    ]);
    assert_eq!(
        actions,
        vec![
            AreaAction::ScreenDc,
            AreaAction::CompatibleDc { screen: 1 },
            AreaAction::CompatibleBitmap { screen: 1, width: 3, height: 2 },
            AreaAction::Select { dc: 2, object: 3 },
            AreaAction::Blit { memory: 2, x: 0, y: 0, screen: 1, area, operation: 0x00CC0020 },
            AreaAction::FetchBits {
                memory: 2,
                bitmap: 3,
                first_line: 0,
                lines: 2,
                header: BitmapHeader {
                    size: 40,
                    width: 3,
                    height: -2,
                    planes: 1,
                    bit_count: 32,
                    compression: 0,
                    image_size: 0,
                    x_resolution: 0,
                    y_resolution: 0,
                    colors_used: 0,
                    colors_important: 0,
                },
                usage: 0,
                buffer: vec![0; 24],
            },
            AreaAction::Select { dc: 2, object: 4 },
            AreaAction::DeleteObject(3),
            AreaAction::DeleteDc(2),
            AreaAction::ReleaseDc(1),
            AreaAction::Return(Ok((pixels, 3, 2))),
        ]
    );
}

#[test]
fn an_empty_area_has_no_pixels() {
    for r in [rect(0, 0, 0, 10), rect(0, 0, 10, 0), rect(5, 5, 1, 9), rect(5, 5, 9, 1)] {
        assert_eq!(
            capture(vec![AreaEvent::Start(r)]),
            vec![AreaAction::Return(Ok((vec![], 0, 0)))]
        );
    }
}

#[test]
fn a_failed_copy_of_the_screen_is_returned() {
    let mut actions = capture(vec![
        AreaEvent::Start(rect(0, 0, 1, 1)),
        AreaEvent::Handle(1),
        AreaEvent::Handle(2),
        AreaEvent::Handle(3),
        AreaEvent::Handle(4),
        AreaEvent::Copied(Err(17)),
    ]);
    assert_eq!(actions.pop(), Some(AreaAction::Return(Err(17))));
}

#[test]
fn a_failed_copy_is_returned_of_an_area_too_large_for_a_buffer() {
    let mut actions = capture(vec![
        AreaEvent::Start(rect(0, 0, i32::MAX, i32::MAX)),
        AreaEvent::Handle(1),
        AreaEvent::Handle(2),
        AreaEvent::Handle(3),
        AreaEvent::Handle(4),
        AreaEvent::Copied(Err(18)),
    ]);
    assert_eq!(actions.pop(), Some(AreaAction::Return(Err(18))));
}

#[test]
fn a_capture_has_four_bytes_to_a_pixel() {
    for (width, height) in [(1, 1), (2, 1), (7, 5)] {
        let mut state: AreaState<Vec<u8>> = AreaState::Ready;
        let mut event: AreaEvent<u32, Vec<u8>> = AreaEvent::Start(rect(3, 4, 3 + width, 4 + height));
        let captured = loop {
            let (next, action) = capture_screen_area(state, event);
            state = next;
            event = match action {
                AreaAction::Blit { .. } => AreaEvent::Copied(Ok(())),
                AreaAction::FetchBits { buffer, .. } => AreaEvent::Bits(buffer),
                AreaAction::DeleteObject(_)
                | AreaAction::DeleteDc(_)
                | AreaAction::ReleaseDc(_) => AreaEvent::Done,
                AreaAction::Return(r) => break r,
                _ => AreaEvent::Handle(9),
            };
        };
        assert_eq!(captured, Ok((vec![0u8; (width * height * 4) as usize], width, height)));
    }
}

fn make_bitmap(replies: Vec<Result<(), u32>>) -> Vec<BitmapAction<u32, Vec<u8>>> {
    let (mut state, first) = create_software_bitmap_from_bytes(
        BitmapState::Ready,
        BitmapEvent::Start { pixels: vec![1, 2, 3, 4], width: 1, height: 1 },
    );
    let mut actions: Vec<BitmapAction<u32, Vec<u8>>> = vec![first];
    for reply in replies {
        let (next, action) = create_software_bitmap_from_bytes(state, BitmapEvent::Done(reply));
        state = next;
        actions.push(action);
    }
    actions
}

#[test]
fn a_bitmap_is_given_the_pixels() {
    assert_eq!(
        make_bitmap(vec![Ok(()); 5]),
        vec![
            BitmapAction::Create {
                format: PixelFormat::Bgra8,
                width: 1,
                height: 1,
                alpha: AlphaMode::Premultiplied,
            },
            BitmapAction::NewWriter,
            BitmapAction::Write(vec![1, 2, 3, 4]),
            BitmapAction::DetachBuffer,
            BitmapAction::CopyFromBuffer,
            BitmapAction::Return(Ok(())),
        ]
    );
}

#[test]
fn a_bitmap_that_cannot_be_made_is_an_error() {
    for at in 0..5usize {
        let mut replies: Vec<Result<(), u32>> = vec![Ok(()); at];
        replies.push(Err(60 + at as u32));
        assert_eq!(
            make_bitmap(replies).pop(),
            Some(BitmapAction::Return(Err(60 + at as u32)))
        );
    }
}

type Event = OcrEvent<u32, Vec<u8>, String>;
type Action = OcrAction<u32, Vec<u8>, String>;

fn recognize(events: Vec<Event>) -> Vec<Action> {
    let mut state: OcrState<Vec<u8>, String> = OcrState::Ready;
    let mut actions: Vec<Action> = Vec::new();
    for event in events {
        let (next, action) = capture_and_recognize(state, event);
        state = next;
        actions.push(action);
    }
    actions
}

fn opening() -> Vec<Event> {
    vec![
        OcrEvent::Start(rect(0, 0, 2, 1)),
        OcrEvent::Captured(Ok((vec![0; 8], 2, 1))),
        OcrEvent::Printed,
        OcrEvent::Done(Ok(())),
        OcrEvent::Done(Ok(())),
        OcrEvent::Done(Ok(())),
        OcrEvent::Done(Ok(())),
    ]
}

fn recognized(lines: &[&str]) -> String {
    let mut events: Vec<Event> = opening();
    for line in lines {
        events.push(OcrEvent::Line(Some(Ok(line.to_string()))));
    }
    events.push(OcrEvent::Line(None));
    match recognize(events).pop() {
        Some(OcrAction::Return(Ok(text))) => text,
        other => panic!("{:?}", other),
    }
}

#[test]
fn recognised_lines_are_joined_and_trimmed() {
    assert_eq!(recognized(&["first", "第二行"]), "first\n第二行");
    assert_eq!(recognized(&["  a ", "", " b  "]), "a \n\n b");
    assert_eq!(recognized(&["", " "]), "");
    assert_eq!(recognized(&[]), "");
}

#[test]
fn recognition_goes_step_by_step() {
    let actions = recognize(opening());
    assert!(matches!(
        &actions[0],
        OcrAction::Capture(ScreenRect { left: 0, top: 0, right: 2, bottom: 1 })
    ));
    assert!(matches!(&actions[1], OcrAction::Print(s) if s == "截图成功: 2x1, 共 8 字节"));
    assert!(matches!(
        &actions[2],
        OcrAction::CreateBitmap { pixels, width: 2, height: 1 } if pixels == &vec![0u8; 8]
    ));
    assert!(matches!(&actions[3], OcrAction::CreateEngine));
    assert!(matches!(&actions[4], OcrAction::Recognize));
    assert!(matches!(&actions[5], OcrAction::Lines));
    assert!(matches!(&actions[6], OcrAction::NextLine));
}

#[test]
fn nothing_captured_is_nothing_recognised() {
    let actions = recognize(vec![
        OcrEvent::Start(rect(0, 0, 0, 0)),
        OcrEvent::Captured(Ok((vec![], 0, 0))),
        OcrEvent::Printed,
    ]);
    assert!(matches!(&actions[1], OcrAction::Print(s) if s == "截图失败或区域无效"));
    assert!(matches!(&actions[2], OcrAction::Return(Ok(s)) if s.is_empty()));
}

#[test]
fn recognition_errors_are_returned() {
    let last = |events: Vec<Event>| match recognize(events).pop() {
        Some(OcrAction::Return(Err(e))) => e,
        other => panic!("{:?}", other),
    };
    assert_eq!(
        last(vec![OcrEvent::Start(rect(0, 0, 2, 1)), OcrEvent::Captured(Err(1))]),
        1
    );
    for at in 3..7usize {
        let mut events: Vec<Event> = opening();
        events.truncate(at);
        events.push(OcrEvent::Done(Err(at as u32)));
        assert_eq!(last(events), at as u32);
    }
    let mut events: Vec<Event> = opening();
    events.push(OcrEvent::Line(Some(Ok("kept".to_string()))));
    events.push(OcrEvent::Line(Some(Err(99))));
    assert_eq!(last(events), 99);
}
