use selection_monitor::clipboard_text::{
    read_clipboard_unicode_text, ReadAction, ReadEvent, ReadState,
};
use selection_monitor::copy::{
    get_selection_via_copy_preserving_clipboard, CopyAction, CopyEvent, CopyState,
};
use selection_monitor::keys::{
    ctrl_c_inputs, send_ctrl_c, KeyInput, SendAction, SendEvent, SendState,
};
use selection_monitor::snapshot::{
    CaptureAction, CaptureEvent, CaptureState, ClipboardSnapshot, RestoreAction, RestoreEvent,
    RestoreState,
};

fn capture(events: Vec<CaptureEvent<u32>>) -> Vec<CaptureAction<u32, ClipboardSnapshot>> {
    let mut state: CaptureState<ClipboardSnapshot> = CaptureState::Ready;
    let mut actions: Vec<CaptureAction<u32, ClipboardSnapshot>> = Vec::new();
    for event in events {
        let (next, action) = ClipboardSnapshot::capture(state, event);
        state = next;
        actions.push(action);
    }
    actions
}

#[test]
fn a_snapshot_keeps_what_can_be_duplicated() {
    let actions = capture(vec![
        CaptureEvent::Start,
        CaptureEvent::Opened(Ok(())),
        CaptureEvent::Format(13),
        CaptureEvent::Data(Some(100)),
        CaptureEvent::Duplicated(101),
        CaptureEvent::Format(0x1_C0DE),
        CaptureEvent::Data(Some(200)),
        CaptureEvent::Duplicated(0),
        CaptureEvent::Format(7),
        CaptureEvent::Data(None),
        CaptureEvent::Format(2),
        CaptureEvent::Data(Some(300)),
        CaptureEvent::Duplicated(301),
        CaptureEvent::Format(0),
        CaptureEvent::LastError(0),
        CaptureEvent::Closed,
    ]);
    assert_eq!(
        actions,
        vec![
            CaptureAction::Open { owner: None },
            CaptureAction::NextFormat(0),
            CaptureAction::Data(13),
            CaptureAction::Duplicate { handle: 100, format: 13, flags: 0 },
            CaptureAction::NextFormat(13),
            CaptureAction::Data(0x1_C0DE),
            CaptureAction::Duplicate { handle: 200, format: 0xC0DE, flags: 0 },
            CaptureAction::NextFormat(0x1_C0DE),
            CaptureAction::Data(7),
            CaptureAction::NextFormat(7),
            CaptureAction::Data(2),
            CaptureAction::Duplicate { handle: 300, format: 2, flags: 0 },
            CaptureAction::NextFormat(2),
            CaptureAction::LastError,
            CaptureAction::Close,
            CaptureAction::Return(Ok(ClipboardSnapshot { items: vec![(13, 101), (2, 301)] })),
        ]
    );
}

#[test]
fn an_empty_clipboard_makes_an_empty_snapshot() {
    let mut actions = capture(vec![
        CaptureEvent::Start,
        CaptureEvent::Opened(Ok(())),
        CaptureEvent::Format(0),
        CaptureEvent::LastError(0),
        CaptureEvent::Closed,
    ]);
    assert_eq!(
        actions.pop(),
        Some(CaptureAction::Return(Ok(ClipboardSnapshot { items: vec![] })))
    );
}

#[test]
fn a_clipboard_that_does_not_open_makes_no_snapshot() {
    assert_eq!(
        capture(vec![CaptureEvent::Start, CaptureEvent::Opened(Err(5))]),
        vec![CaptureAction::Open { owner: None }, CaptureAction::Return(Err(5))]
    );
}

#[test]
fn an_enumeration_that_fails_closes_the_clipboard() {
    assert_eq!(
        capture(vec![
            CaptureEvent::Start,
            CaptureEvent::Opened(Ok(())),
            CaptureEvent::Format(0),
            CaptureEvent::LastError(6),
            CaptureEvent::Closed,
            CaptureEvent::ThreadError(66),
        ]),
        vec![
            CaptureAction::Open { owner: None },
            CaptureAction::NextFormat(0),
            CaptureAction::LastError,
            CaptureAction::Close,
            CaptureAction::ThreadError,
            CaptureAction::Return(Err(66)),
        ]
    );
}

/// Puts a snapshot back on a clipboard that opens at the given attempt.
fn restore(items: Vec<(u32, usize)>, opens_at: usize) -> Vec<RestoreAction> {
    let mut state: RestoreState<ClipboardSnapshot> =
        RestoreState::Ready { items: ClipboardSnapshot { items } };
    let mut event: RestoreEvent = RestoreEvent::Start;
    let mut tries: usize = 0;
    let mut actions: Vec<RestoreAction> = Vec::new();
    loop {
        let (next, action) = ClipboardSnapshot::restore(state, event);
        state = next;
        event = match action {
            RestoreAction::Open { .. } => {
                tries += 1;
                RestoreEvent::Opened(tries == opens_at)
            }
            _ => RestoreEvent::Done,
        };
        let last: bool = action == RestoreAction::Return;
        actions.push(action);
        if last {
            return actions;
        }
    }
}

#[test]
fn a_snapshot_is_put_back_in_order() {
    assert_eq!(
        restore(vec![(13, 101), (2, 301)], 1),
        vec![
            RestoreAction::Open { owner: None },
            RestoreAction::Empty,
            RestoreAction::Put { format: 13, handle: 101 },
            RestoreAction::Put { format: 2, handle: 301 },
            RestoreAction::Close,
            RestoreAction::Return,
        ]
    );
    assert_eq!(
        restore(vec![], 1),
        vec![
            RestoreAction::Open { owner: None },
            RestoreAction::Empty,
            RestoreAction::Close,
            RestoreAction::Return,
        ]
    );
}

#[test]
fn a_busy_clipboard_is_tried_for_again() {
    assert_eq!(
        restore(vec![(1, 9)], 3),
        vec![
            RestoreAction::Open { owner: None },
            RestoreAction::Sleep(10),
            RestoreAction::Open { owner: None },
            RestoreAction::Sleep(10),
            RestoreAction::Open { owner: None },
            RestoreAction::Empty,
            RestoreAction::Put { format: 1, handle: 9 },
            RestoreAction::Close,
            RestoreAction::Return,
        ]
    );
}

#[test]
fn a_clipboard_that_never_opens_is_left_alone() {
    let actions = restore(vec![(1, 9)], 6);
    assert_eq!(actions.len(), 11);
    for i in 0..5usize {
        assert_eq!(actions[2 * i], RestoreAction::Open { owner: None });
        assert_eq!(actions[2 * i + 1], RestoreAction::Sleep(10));
    }
    assert_eq!(actions[10], RestoreAction::Return);
}

#[test]
fn the_copy_keys_are_pressed_and_released() {
    let key = |key: u16, flags: u32| KeyInput {
        kind: 1,
        key,
        scan: 0,
        flags,
        time: 0,
        extra_info: 0,
    };
    assert_eq!(
        ctrl_c_inputs(),
        vec![key(0x11, 0), key(0x43, 0), key(0x43, 2), key(0x11, 2)]
    );
}

#[test]
fn sending_succeeds_where_every_input_was_sent() {
    let (state, action) = send_ctrl_c::<u32>(SendState::Ready, SendEvent::Start);
    assert_eq!(action, SendAction::Send(ctrl_c_inputs()));
    let (state, action) = send_ctrl_c::<u32>(state, SendEvent::Sent(4));
    assert_eq!((state, action), (SendState::Finished, SendAction::Return(Ok(()))));
}

#[test]
fn sending_fails_where_an_input_was_not_sent() {
    for sent in [0u32, 1, 3, 5] {
        let (state, _) = send_ctrl_c::<u32>(SendState::Ready, SendEvent::Start);
        let (state, action) = send_ctrl_c::<u32>(state, SendEvent::Sent(sent));
        assert_eq!(action, SendAction::ThreadError);
        let (state, action) = send_ctrl_c::<u32>(state, SendEvent::ThreadError(31));
        assert_eq!((state, action), (SendState::Finished, SendAction::Return(Err(31))));
    }
}

type ReadActions = Vec<ReadAction<u32, String>>;

fn read(events: Vec<ReadEvent<u32>>) -> ReadActions {
    let mut state: ReadState<Vec<u16>, String> = ReadState::Ready;
    let mut actions: ReadActions = Vec::new();
    for event in events {
        let (next, action) = read_clipboard_unicode_text(state, event);
        state = next;
        actions.push(action);
    }
    actions
}

/// Reads memory that holds the given units.
fn read_memory(memory: &[u16]) -> ReadActions {
    let mut state: ReadState<Vec<u16>, String> = ReadState::Ready;
    let mut event: ReadEvent<u32> = ReadEvent::Start;
    let mut actions: ReadActions = Vec::new();
    loop {
        let (next, action) = read_clipboard_unicode_text(state, event);
        state = next;
        let mut last: bool = false;
        event = match &action {
            ReadAction::Open { .. } => ReadEvent::Opened(Ok(())),
            ReadAction::Data(_) => ReadEvent::Data(Ok(40)),
            ReadAction::Lock(_) => ReadEvent::Locked(50),
            ReadAction::Unit(i) => ReadEvent::Unit(memory[*i]),
            ReadAction::Unlock(_) | ReadAction::Close => ReadEvent::Done,
            ReadAction::Return(_) => {
                last = true;
                ReadEvent::Done
            }
        };
        actions.push(action);
        if last {
            return actions;
        }
    }
}

#[test]
fn clipboard_text_ends_at_the_first_zero() {
    assert_eq!(
        read_memory(&[0x0068, 0x0069, 0, 0x0021]),
        vec![
            ReadAction::Open { owner: None },
            ReadAction::Data(13),
            ReadAction::Lock(40),
            ReadAction::Unit(0),
            ReadAction::Unit(1),
            ReadAction::Unit(2),
            ReadAction::Unlock(40),
            ReadAction::Close,
            ReadAction::Return(Ok("hi".to_string())),
        ]
    );
}

#[test]
fn clipboard_text_is_read_back() {
    for text in ["", "plain", "复制的文字", "a😀b\n"] {
        let mut memory: Vec<u16> = text.encode_utf16().collect();
        memory.push(0);
        assert_eq!(read_memory(&memory).pop(), Some(ReadAction::Return(Ok(text.to_string()))));
    }
    assert_eq!(
        read_memory(&[0xD800, 0x0041, 0]).pop(),
        Some(ReadAction::Return(Ok("\u{FFFD}A".to_string())))
    );
}

#[test]
fn data_that_is_not_there_makes_an_empty_text() {
    assert_eq!(
        read(vec![
            ReadEvent::Start,
            ReadEvent::Opened(Ok(())),
            ReadEvent::Data(Ok(0)),
            ReadEvent::Done,
        ]),
        vec![
            ReadAction::Open { owner: None },
            ReadAction::Data(13),
            ReadAction::Close,
            ReadAction::Return(Ok(String::new())),
        ]
    );
    assert_eq!(
        read(vec![
            ReadEvent::Start,
            ReadEvent::Opened(Ok(())),
            ReadEvent::Data(Ok(40)),
            ReadEvent::Locked(0),
            ReadEvent::Done,
        ]),
        vec![
            ReadAction::Open { owner: None },
            ReadAction::Data(13),
            ReadAction::Lock(40),
            ReadAction::Close,
            ReadAction::Return(Ok(String::new())),
        ]
    );
}

#[test]
fn reading_errors_are_returned() {
    assert_eq!(
        read(vec![ReadEvent::Start, ReadEvent::Opened(Err(3))]),
        vec![ReadAction::Open { owner: None }, ReadAction::Return(Err(3))]
    );
    assert_eq!(
        read(vec![ReadEvent::Start, ReadEvent::Opened(Ok(())), ReadEvent::Data(Err(4))]),
        vec![ReadAction::Open { owner: None }, ReadAction::Data(13), ReadAction::Return(Err(4))]
    );
}

type Copying = CopyAction<u32, ClipboardSnapshot, String>;

/// Copies on a clipboard whose sequence number changes at the given look.
fn copy(
    snapshot: Result<Vec<(u32, usize)>, u32>,
    sent: Result<(), u32>,
    changes_at: usize,
    text: Result<&str, u32>,
) -> Vec<Copying> {
    let mut state: CopyState<ClipboardSnapshot, String> = CopyState::Ready;
    let mut event: CopyEvent<u32, ClipboardSnapshot, String> = CopyEvent::Start;
    let mut looks: usize = 0;
    let mut actions: Vec<Copying> = Vec::new();
    loop {
        let (next, action) = get_selection_via_copy_preserving_clipboard(state, event);
        state = next;
        let mut last: bool = false;
        event = match &action {
            CopyAction::Capture => CopyEvent::Captured(match &snapshot {
                Ok(items) => Ok(ClipboardSnapshot { items: items.clone() }),
                Err(e) => Err(*e),
            }),
            CopyAction::Number => {
                looks += 1;
                CopyEvent::Number(if looks > changes_at { 9 } else { 8 })
            }
            CopyAction::Send => CopyEvent::Sent(sent),
            CopyAction::Sleep(_) => CopyEvent::Slept,
            CopyAction::Read => CopyEvent::Text(text.map(|t| t.to_string())),
            CopyAction::Restore(_) => CopyEvent::Restored,
            CopyAction::Return(_) => {
                last = true;
                CopyEvent::Restored
            }
        };
        actions.push(action);
        if last {
            return actions;
        }
    }
}

#[test]
fn a_copy_is_read_and_the_clipboard_put_back() {
    assert_eq!(
        copy(Ok(vec![(2, 7)]), Ok(()), 2, Ok("text")),
        vec![
            CopyAction::Capture,
            CopyAction::Number,
            CopyAction::Send,
            CopyAction::Number,
            CopyAction::Sleep(10),
            CopyAction::Number,
            CopyAction::Read,
            CopyAction::Restore(ClipboardSnapshot { items: vec![(2, 7)] }),
            CopyAction::Return(Ok("text".to_string())),
        ]
    );
}

#[test]
fn the_clipboard_is_put_back_where_nothing_could_be_read() {
    let mut actions = copy(Ok(vec![(2, 7)]), Ok(()), 1, Err(12));
    assert_eq!(actions.pop(), Some(CopyAction::Return(Ok(String::new()))));
    assert_eq!(
        actions.pop(),
        Some(CopyAction::Restore(ClipboardSnapshot { items: vec![(2, 7)] }))
    );
}

#[test]
fn a_copy_is_not_waited_for_without_end() {
    let actions = copy(Ok(vec![]), Ok(()), 1000, Ok(""));
    let looks: usize = actions.iter().filter(|a| matches!(a, CopyAction::Number)).count();
    let sleeps: usize = actions.iter().filter(|a| matches!(a, CopyAction::Sleep(10))).count();
    assert_eq!((looks, sleeps), (31, 30));
    assert_eq!(actions.len(), 3 + 60 + 3);
}

#[test]
fn nothing_is_copied_without_a_snapshot() {
    assert_eq!(
        copy(Err(5), Ok(()), 1, Ok("text")),
        vec![CopyAction::Capture, CopyAction::Return(Ok(String::new()))]
    );
}

#[test]
fn keystrokes_that_fail_are_reported() {
    assert_eq!(
        copy(Ok(vec![(2, 7)]), Err(21), 1, Ok("text")),
        vec![
            CopyAction::Capture,
            CopyAction::Number,
            CopyAction::Send,
            CopyAction::Return(Err(21)),
        ]
    );
}

#[test]
fn memory_is_unlocked_as_often_as_it_is_locked() {
    let unlocks = |actions: &ReadActions| -> Vec<usize> {
        actions
            .iter()
            .filter_map(|a| match a {
                ReadAction::Unlock(handle) => Some(*handle),
                _ => None,
            })
            .collect()
    };
    assert_eq!(unlocks(&read_memory(&[0])), vec![40]);
    assert_eq!(unlocks(&read_memory(&[0x0041, 0x0042, 0])), vec![40]);
    let opening = || vec![ReadEvent::Start, ReadEvent::Opened(Ok(()))];
    let mut events: Vec<ReadEvent<u32>> = opening();
    events.push(ReadEvent::Data(Ok(40)));
    events.push(ReadEvent::Locked(0));
    events.push(ReadEvent::Done);
    assert_eq!(unlocks(&read(events)), Vec::<usize>::new());
    let mut events: Vec<ReadEvent<u32>> = opening();
    events.push(ReadEvent::Data(Err(4)));
    assert_eq!(unlocks(&read(events)), Vec::<usize>::new());
}

#[test]
fn a_whole_copy_leaves_the_clipboard_as_it_was() {
    let taken = capture(vec![
        CaptureEvent::Start,
        CaptureEvent::Opened(Ok(())),
        CaptureEvent::Format(13),
        CaptureEvent::Data(Some(100)),
        CaptureEvent::Duplicated(101),
        CaptureEvent::Format(8),
        CaptureEvent::Data(Some(200)),
        CaptureEvent::Duplicated(201),
        CaptureEvent::Format(0),
        CaptureEvent::LastError(0),
        CaptureEvent::Closed,
    ])
    .pop();
    let items: Vec<(u32, usize)> = match taken {
        Some(CaptureAction::Return(Ok(snapshot))) => snapshot.items,
        _ => panic!("no snapshot was taken"),
    };
    let text: String = match read_memory(&[0x6587, 0x5B57, 0]).pop() {
        Some(ReadAction::Return(Ok(text))) => text,
        _ => panic!("no text was read"),
    };
    let mut actions = copy(Ok(items), Ok(()), 1, Ok(&text));
    assert_eq!(actions.pop(), Some(CopyAction::Return(Ok("文字".to_string()))));
    let snapshot: ClipboardSnapshot = match actions.pop() {
        Some(CopyAction::Restore(snapshot)) => snapshot,
        _ => panic!("no snapshot was put back"),
    };
    assert_eq!(
        restore(snapshot.items, 2),
        vec![
            RestoreAction::Open { owner: None },
            RestoreAction::Sleep(10),
            RestoreAction::Open { owner: None },
            RestoreAction::Empty,
            RestoreAction::Put { format: 13, handle: 101 },
            RestoreAction::Put { format: 8, handle: 201 },
            RestoreAction::Close,
            RestoreAction::Return,
        ]
    );
}
