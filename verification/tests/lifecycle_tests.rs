use selection_monitor::session::{run_session, SessionAction, SessionEvent, SessionState};
use selection_monitor::worker::{worker_loop, WorkerAction, WorkerEvent, WorkerState};

type Action = SessionAction<u32, Vec<String>, String>;

const ANY_MESSAGE: Action = SessionAction::NextMessage { window: None, first: 0, last: 0 };

fn session(events: Vec<SessionEvent<u32>>) -> Vec<Action> {
    let mut state: SessionState = SessionState::Ready;
    let mut actions: Vec<Action> = Vec::new();
    for event in events {
        let (next, action) = run_session(state, event);
        state = next;
        actions.push(action);
    }
    actions
}

#[test]
fn a_session_installs_pumps_and_removes() {
    assert_eq!(
        session(vec![
            SessionEvent::Start,
            SessionEvent::Done,
            SessionEvent::Module(Ok(0x400000)),
            SessionEvent::Hook(Ok(33)),
            SessionEvent::Done,
            SessionEvent::Done,
            SessionEvent::Message(1),
            SessionEvent::Done,
            SessionEvent::Message(-1),
            SessionEvent::Done,
            SessionEvent::Message(0),
            SessionEvent::Done,
            SessionEvent::Done,
        ]),
        vec![
            SessionAction::StartWorker {
                name: "uia-worker".to_string(),
                stack_bytes: 8 * 1024 * 1024,
            },
            SessionAction::ModuleHandle,
            SessionAction::InstallHook { kind: 14, module: 0x400000, thread: 0 },
            SessionAction::StoreHook(33),
            SessionAction::Print(vec![
                "系统监控已启动...".to_string(),
                "请尝试：按住鼠标左键 -> 拖拽选中文字 -> 松开鼠标".to_string(),
                "(短按点击不会触发)".to_string(),
            ]),
            ANY_MESSAGE,
            SessionAction::Dispatch,
            ANY_MESSAGE,
            SessionAction::Dispatch,
            ANY_MESSAGE,
            SessionAction::StoreHook(0),
            SessionAction::RemoveHook(33),
            SessionAction::Return(Ok(())),
        ]
    );
}

#[test]
fn a_session_without_a_hook_says_so_and_ends() {
    for hook in [0usize, usize::MAX] {
        let actions = session(vec![
            SessionEvent::Start,
            SessionEvent::Done,
            SessionEvent::Module(Ok(1)),
            SessionEvent::Hook(Ok(hook)),
            SessionEvent::Done,
        ]);
        assert_eq!(
            actions[3],
            SessionAction::PrintError(vec!["无法安装鼠标钩子！".to_string()])
        );
        assert_eq!(actions[4], SessionAction::Return(Ok(())));
    }
}

#[test]
fn session_errors_are_returned() {
    let mut actions = session(vec![
        SessionEvent::Start,
        SessionEvent::Done,
        SessionEvent::Module(Err(2)),
    ]);
    assert_eq!(actions.pop(), Some(SessionAction::Return(Err(2))));
    let mut actions = session(vec![
        SessionEvent::Start,
        SessionEvent::Done,
        SessionEvent::Module(Ok(1)),
        SessionEvent::Hook(Err(3)),
    ]);
    assert_eq!(actions.pop(), Some(SessionAction::Return(Err(3))));
}

fn work(events: &[WorkerEvent]) -> Vec<WorkerAction> {
    let mut state: WorkerState = WorkerState::Ready;
    let mut actions: Vec<WorkerAction> = Vec::new();
    for event in events {
        let (next, action) = worker_loop(state, *event);
        state = next;
        actions.push(action);
    }
    actions
}

#[test]
fn the_worker_looks_after_every_press() {
    assert_eq!(
        work(&[
            WorkerEvent::Start,
            WorkerEvent::Initialized(true),
            WorkerEvent::Received(Some(250)),
            WorkerEvent::Done,
            WorkerEvent::Done,
            WorkerEvent::Received(Some(900)),
            WorkerEvent::Done,
            WorkerEvent::Done,
            WorkerEvent::Received(None),
            WorkerEvent::Done,
        ]),
        vec![
            WorkerAction::Initialize { concurrency: 0 },
            WorkerAction::Receive,
            WorkerAction::Sleep(50),
            WorkerAction::Detect(250),
            WorkerAction::Receive,
            WorkerAction::Sleep(50),
            WorkerAction::Detect(900),
            WorkerAction::Receive,
            WorkerAction::Uninitialize,
            WorkerAction::Return,
        ]
    );
}

#[test]
fn the_worker_ends_where_com_cannot_be_set_up() {
    assert_eq!(
        work(&[WorkerEvent::Start, WorkerEvent::Initialized(false)]),
        vec![WorkerAction::Initialize { concurrency: 0 }, WorkerAction::Return]
    );
}
