use selection_monitor::mouse::{
    epoch_ms, mouse_hook_proc, needs_clock, HandOn, HookCall, HookReply, HookState,
    SELECTION_THRESHOLD_MS, WM_LBUTTONDOWN, WM_LBUTTONUP,
};

const IDLE: HookState = HookState { down_time: 0, hook: 77 };

fn call(message: u32, clock: u128) -> HookCall {
    HookCall { code: 0, wparam: message as usize, lparam: -6, clock: Some(clock) }
}

fn posts(calls: &[HookCall]) -> Vec<Option<u64>> {
    let mut state: HookState = IDLE;
    let mut all: Vec<Option<u64>> = Vec::new();
    for c in calls {
        let (next, reply) = mouse_hook_proc(state, *c);
        assert_eq!(
            reply.next,
            HandOn { hook: Some(77), code: c.code, wparam: c.wparam, lparam: c.lparam }
        );
        state = next;
        all.push(reply.post);
    }
    all
}

#[test]
fn a_long_press_is_posted_with_its_duration() {
    assert_eq!(SELECTION_THRESHOLD_MS, 200);
    assert_eq!(
        posts(&[call(WM_LBUTTONDOWN, 1000), call(WM_LBUTTONUP, 1200)]),
        vec![None, Some(200)]
    );
    assert_eq!(
        posts(&[call(WM_LBUTTONDOWN, 1000), call(WM_LBUTTONUP, 2345)]),
        vec![None, Some(1345)]
    );
}

#[test]
fn a_click_is_not_posted() {
    assert_eq!(
        posts(&[call(WM_LBUTTONDOWN, 1000), call(WM_LBUTTONUP, 1199)]),
        vec![None, None]
    );
}

#[test]
fn other_messages_do_not_disturb_a_press() {
    let hidden: HookCall = HookCall { code: -1, ..call(WM_LBUTTONUP, 1100) };
    assert_eq!(
        posts(&[
            call(WM_LBUTTONDOWN, 1000),
            call(0x0200, 1050),
            hidden,
            call(0x0204, 1150),
            call(WM_LBUTTONUP, 1300),
        ]),
        vec![None, None, None, None, Some(300)]
    );
}

#[test]
fn a_second_release_posts_nothing() {
    assert_eq!(
        posts(&[
            call(WM_LBUTTONDOWN, 1000),
            call(WM_LBUTTONUP, 1500),
            call(WM_LBUTTONUP, 9000),
        ]),
        vec![None, Some(500), None]
    );
    assert_eq!(posts(&[call(WM_LBUTTONUP, 9000)]), vec![None]);
    assert_eq!(
        posts(&[
            call(WM_LBUTTONDOWN, 1000),
            call(WM_LBUTTONUP, 1500),
            call(WM_LBUTTONUP, 3000),
            call(0x0200, 4000),
            call(WM_LBUTTONUP, 9000),
        ]),
        vec![None, Some(500), None, None, None]
    );
}

#[test]
fn a_second_press_restarts_the_clock() {
    assert_eq!(
        posts(&[
            call(WM_LBUTTONDOWN, 1000),
            call(WM_LBUTTONDOWN, 1900),
            call(WM_LBUTTONUP, 2000),
        ]),
        vec![None, None, None]
    );
}

#[test]
fn a_clock_that_goes_back_counts_as_no_time() {
    assert_eq!(
        posts(&[call(WM_LBUTTONDOWN, 5000), call(WM_LBUTTONUP, 1000)]),
        vec![None, None]
    );
}

#[test]
fn a_press_at_the_epoch_is_no_press() {
    let before_epoch: HookCall = HookCall {
        code: 0,
        wparam: WM_LBUTTONDOWN as usize,
        lparam: 0,
        clock: None,
    };
    assert_eq!(posts(&[before_epoch, call(WM_LBUTTONUP, 9000)]), vec![None, None]);
    assert_eq!(posts(&[call(WM_LBUTTONDOWN, 0), call(WM_LBUTTONUP, 9000)]), vec![None, None]);
}

#[test]
fn the_message_is_the_low_half_of_the_parameter() {
    let wide: HookCall = HookCall {
        code: 3,
        wparam: (0x7_0000_0000u64 + WM_LBUTTONDOWN as u64) as usize,
        lparam: 0,
        clock: Some(12),
    };
    let (state, _) = mouse_hook_proc(IDLE, wide);
    assert_eq!(state, HookState { down_time: 12, hook: 77 });
}

#[test]
fn time_is_kept_in_sixty_four_bits() {
    assert_eq!(epoch_ms(None), 0);
    assert_eq!(epoch_ms(Some(1_700_000_000_000)), 1_700_000_000_000);
    assert_eq!(epoch_ms(Some((1u128 << 64) + 5)), 5);
}

#[test]
fn calls_are_handed_on_without_a_hook_too() {
    let (state, reply) = mouse_hook_proc(
        HookState { down_time: 9, hook: 0 },
        HookCall { code: -1, wparam: 3, lparam: 4, clock: Some(1) },
    );
    assert_eq!(state, HookState { down_time: 9, hook: 0 });
    assert_eq!(
        reply,
        HookReply { post: None, next: HandOn { hook: None, code: -1, wparam: 3, lparam: 4 } }
    );
}

#[test]
fn the_clock_is_needed_at_a_press_and_at_its_release() {
    let pressed: HookState = HookState { down_time: 5, hook: 77 };
    assert!(needs_clock(IDLE, 0, WM_LBUTTONDOWN as usize));
    assert!(needs_clock(pressed, 0, WM_LBUTTONUP as usize));
    assert!(!needs_clock(IDLE, 0, WM_LBUTTONUP as usize));
    assert!(!needs_clock(pressed, -1, WM_LBUTTONUP as usize));
    assert!(!needs_clock(pressed, 0, 0x0200));
    for clock in [None, Some(7u128), Some(u128::MAX)] {
        let moved: HookCall = HookCall { code: 0, wparam: 0x0200, lparam: 0, clock };
        assert_eq!(mouse_hook_proc(pressed, moved).0, pressed);
    }
}
