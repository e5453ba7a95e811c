use selection_monitor::detection::perform_uia_detection;
use selection_monitor::selection::{
    get_focused_selection, get_focused_selection_with_fallback_copy, FallbackAction,
    FallbackEvent, FallbackState, SelectionAction, SelectionEvent, SelectionState,
};

type Event = SelectionEvent<u32, String>;
type Action = SelectionAction<u32, String>;

fn run(events: Vec<Event>) -> Vec<Action> {
    let mut state: SelectionState<String> = SelectionState::Ready;
    let mut actions: Vec<Action> = Vec::new();
    for event in events {
        let (next, action) = get_focused_selection(state, event);
        state = next;
        actions.push(action);
    }
    actions
}

fn opening(count: i32) -> Vec<Event> {
    vec![
        SelectionEvent::Start,
        SelectionEvent::Found(Ok(())),
        SelectionEvent::Found(Ok(())),
        SelectionEvent::Found(Ok(())),
        SelectionEvent::Cast(true),
        SelectionEvent::Found(Ok(())),
        SelectionEvent::Count(Ok(count)),
    ]
}

#[test]
fn all_ranges_are_read_in_order() {
    let mut events: Vec<Event> = opening(2);
    events.push(SelectionEvent::Found(Ok(())));
    events.push(SelectionEvent::Text(Ok("ab ".to_string())));
    events.push(SelectionEvent::Found(Ok(())));
    events.push(SelectionEvent::Text(Ok("文".to_string())));
    assert_eq!(
        run(events),
        vec![
            SelectionAction::CreateAutomation {
                class: 0xff48dba4_60ef_4201_aa87_54103eef594e,
                context: 1,
            },
            SelectionAction::FocusedElement,
            SelectionAction::CurrentPattern(10014),
            SelectionAction::CastPattern,
            SelectionAction::Selection,
            SelectionAction::Length,
            SelectionAction::Element(0),
            SelectionAction::Text(-1),
            SelectionAction::Element(1),
            SelectionAction::Text(-1),
            SelectionAction::Return(Ok("ab 文".to_string())),
        ]
    );
}

#[test]
fn no_ranges_make_an_empty_selection() {
    for count in [0, -3] {
        assert_eq!(
            run(opening(count)).pop(),
            Some(SelectionAction::Return(Ok(String::new())))
        );
    }
}

#[test]
fn a_pattern_without_text_makes_an_empty_selection() {
    let mut events: Vec<Event> = opening(1);
    events.truncate(4);
    events.push(SelectionEvent::Cast(false));
    assert_eq!(run(events).pop(), Some(SelectionAction::Return(Ok(String::new()))));
}

#[test]
fn the_first_error_is_returned() {
    for at in [1usize, 2, 3, 5] {
        let mut events: Vec<Event> = opening(1);
        events.truncate(at);
        events.push(SelectionEvent::Found(Err(40 + at as u32)));
        assert_eq!(run(events).pop(), Some(SelectionAction::Return(Err(40 + at as u32))));
    }
    let mut events: Vec<Event> = opening(1);
    events.truncate(6);
    events.push(SelectionEvent::Count(Err(7)));
    assert_eq!(run(events).pop(), Some(SelectionAction::Return(Err(7))));

    let mut events: Vec<Event> = opening(1);
    events.push(SelectionEvent::Found(Err(8)));
    assert_eq!(run(events).pop(), Some(SelectionAction::Return(Err(8))));

    let mut events: Vec<Event> = opening(2);
    events.push(SelectionEvent::Found(Ok(())));
    events.push(SelectionEvent::Text(Ok("lost".to_string())));
    events.push(SelectionEvent::Found(Ok(())));
    events.push(SelectionEvent::Text(Err(9)));
    assert_eq!(run(events).pop(), Some(SelectionAction::Return(Err(9))));
}

fn fallback(selection: Result<&str, u32>) -> (FallbackState, FallbackAction<u32, String>) {
    let (state, action) = get_focused_selection_with_fallback_copy::<u32>(
        FallbackState::Ready,
        FallbackEvent::Start,
    );
    assert_eq!(action, FallbackAction::ReadSelection);
    get_focused_selection_with_fallback_copy(
        state,
        FallbackEvent::Selection(selection.map(|s| s.to_string())),
    )
}

#[test]
fn a_selection_is_used_as_it_is() {
    assert_eq!(
        fallback(Ok(" x ")),
        (FallbackState::Finished, FallbackAction::Return(Ok(" x ".to_string())))
    );
}

#[test]
fn a_blank_selection_or_an_error_leads_to_the_clipboard() {
    for selection in [Ok(""), Ok(" \n\u{3000}"), Err(5)] {
        let (state, action) = fallback(selection);
        assert_eq!(action, FallbackAction::CopySelection);
        let (state, action) = get_focused_selection_with_fallback_copy::<u32>(
            state,
            FallbackEvent::Copied(Err(6)),
        );
        assert_eq!(state, FallbackState::Finished);
        assert_eq!(action, FallbackAction::Return(Err(6)));
    }
    let (state, _) = fallback(Err(5));
    assert_eq!(
        get_focused_selection_with_fallback_copy::<u32>(
            state,
            FallbackEvent::Copied(Ok(String::new())),
        )
        .1,
        FallbackAction::Return(Ok(String::new()))
    );
}

#[test]
fn a_captured_text_is_reported() {
    let rule: String = "-".repeat(50);
    assert_eq!(
        perform_uia_detection::<u32>(1345, Ok(" 选中 text".to_string())),
        vec![
            rule.clone(),
            "检测到长按/拖拽 (1345ms) 结束，捕获文本:".to_string(),
            ">>>  选中 text".to_string(),
            rule,
        ]
    );
}

#[test]
fn nothing_is_reported_of_nothing() {
    assert!(perform_uia_detection::<u32>(300, Ok(String::new())).is_empty());
    assert!(perform_uia_detection::<u32>(300, Ok(" \t".to_string())).is_empty());
    assert!(perform_uia_detection::<u32>(300, Err(1)).is_empty());
}
