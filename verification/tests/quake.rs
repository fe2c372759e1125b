use c0pl4nd::quake::{
    attaches_to_foreground, cached, hook_message, is_out_of_view, prime_hwnd, quake_action,
    ArmStep, HookAction, QuakeAction, QuakeState, ScreenRect, HOTKEY_ID,
};

/// The height a fraction of the work area comes to; none where the fraction is
/// no number.
fn wanted(work: ScreenRect, fraction: f32) -> Option<i32> {
    if !fraction.is_finite() {
        return None;
    }
    let f = fraction.clamp(0.1, 1.0);
    Some((work.height() as f32 * f).round() as i32)
}

fn quake_rect(work: ScreenRect, fraction: f32) -> Option<ScreenRect> {
    c0pl4nd::quake::quake_rect(work, wanted(work, fraction))
}

#[test]
fn quake_rect_uses_the_work_area_top_and_full_width() {
    let work = ScreenRect::new(0, 0, 1920, 1040);
    let r = quake_rect(work, 0.5).expect("a usable work area yields a rect");
    assert_eq!(r, ScreenRect::new(0, 0, 1920, 520));
    assert_eq!(r.width(), 1920, "full work-area width");
    assert_eq!(r.height(), 520, "half the work-area height");
    assert!(r.bottom <= work.bottom, "never overlaps the taskbar");
}

#[test]
fn quake_rect_anchors_to_the_work_top_not_the_screen_top() {
    let work = ScreenRect::new(-1920, 48, 0, 1080);
    let r = quake_rect(work, 0.5).expect("a usable work area yields a rect");
    assert_eq!(r.top, 48, "must start BELOW a top-docked taskbar");
    assert_eq!(r.left, -1920, "must stay on the left-hand monitor");
    assert_eq!(r.right, 0);
    assert_eq!(r.height(), 516);
    assert_eq!(r.bottom, 48 + 516);
}

#[test]
fn quake_rect_clamps_the_fraction_and_refuses_garbage() {
    let work = ScreenRect::new(0, 0, 1920, 1000);
    assert_eq!(quake_rect(work, 1.0).map(|r| r.height()), Some(1000));
    assert_eq!(quake_rect(work, 5.0).map(|r| r.height()), Some(1000));
    assert_eq!(quake_rect(work, 0.0).map(|r| r.height()), Some(100));
    assert_eq!(quake_rect(work, -2.0).map(|r| r.height()), Some(100));
    for bad in [f32::NAN, f32::INFINITY, f32::NEG_INFINITY] {
        assert_eq!(quake_rect(work, bad), None, "{bad} must not move the window");
    }
    for empty in [
        ScreenRect::new(0, 0, 0, 0),
        ScreenRect::new(0, 0, 1920, 0),
        ScreenRect::new(0, 0, 0, 1080),
        ScreenRect::new(100, 100, 50, 50),
    ] {
        assert_eq!(quake_rect(empty, 0.5), None, "{empty:?} is not a usable work area");
    }
}

#[test]
fn quake_toggles_only_when_visible_and_focused() {
    assert_eq!(quake_action(true, false, true), QuakeAction::Retract);
    assert_eq!(
        quake_action(true, false, false),
        QuakeAction::DropDown,
        "visible but unfocused must FOCUS it, never hide it"
    );
    assert_eq!(quake_action(false, false, false), QuakeAction::DropDown, "hidden → drop down");
    assert_eq!(
        quake_action(true, true, true),
        QuakeAction::DropDown,
        "minimized (even if nominally 'foreground') → drop down"
    );
    assert_eq!(quake_action(false, true, false), QuakeAction::DropDown);
}

#[test]
fn out_of_view_matches_the_tray_predicate_shape() {
    assert!(is_out_of_view(false, false), "hidden is out of view");
    assert!(is_out_of_view(true, true), "minimized is out of view");
    assert!(is_out_of_view(false, true));
    assert!(!is_out_of_view(true, false), "visible+restored is in view");
    for (v, m) in [(false, false), (true, true), (false, true)] {
        assert!(is_out_of_view(v, m));
        assert_eq!(quake_action(v, m, true), QuakeAction::DropDown);
        assert_eq!(quake_action(v, m, false), QuakeAction::DropDown);
    }
}

#[test]
fn disabled_config_registers_nothing_and_a_zero_handle_never_primes() {
    let mut state = QuakeState::new();
    assert_eq!(state.hwnd, 0, "starts unprimed");
    prime_hwnd(&mut state.hwnd, 0);
    assert_eq!(state.hwnd, 0, "a zero handle must never be cached");
    assert_eq!(state.init(false, true), ArmStep::Stop);
    assert!(!state.registered, "a disabled config must never register a global hotkey");
    assert_eq!(state.init(true, true), ArmStep::Stop);
    assert!(!state.registered, "an unprimed window must never register a global hotkey");
}

#[test]
fn toggle_and_unregister_are_safe_while_unprimed() {
    let mut state = QuakeState::new();
    assert_eq!(state.toggle(true, false, true), None);
    assert!(!state.unregister());
    assert!(!state.registered);
}

#[test]
fn a_primed_window_is_armed_step_by_step() {
    let mut state = QuakeState::new();
    prime_hwnd(&mut state.hwnd, 77);
    assert_eq!(cached(state.hwnd), Some(77));
    assert_eq!(state.init(true, false), ArmStep::Stop, "no usable hotkey");
    assert_eq!(state.init(true, true), ArmStep::InstallHook(77));
    assert_eq!(state.hook_tried(true), ArmStep::ClaimHotkey(77));
    assert_eq!(state.hook_tried(false), ArmStep::Stop);
    let _ = state.claim_tried(true);
    assert!(state.registered);
    assert_eq!(state.init(true, true), ArmStep::Stop, "claimed once");
    assert_eq!(state.toggle(true, false, true), Some(QuakeAction::Retract));
    assert!(state.unregister());
    assert!(!state.unregister());
}

#[test]
fn a_hotkey_message_toggles_and_a_destroy_releases() {
    assert_eq!(hook_message(true, false, HOTKEY_ID), HookAction::Toggle);
    assert_eq!(hook_message(true, false, HOTKEY_ID + 1), HookAction::Pass);
    assert_eq!(hook_message(false, true, 0), HookAction::Release);
    assert!(attaches_to_foreground(5, 6));
    assert!(!attaches_to_foreground(6, 6));
    assert!(!attaches_to_foreground(0, 6));
}

#[test]
fn a_wide_work_area_does_not_overflow() {
    let work = ScreenRect::new(i32::MIN, i32::MIN, i32::MAX, i32::MAX);
    assert_eq!(work.width(), i32::MAX);
    assert!(!work.is_empty());
    assert!(ScreenRect::new(5, 0, 5, 9).is_empty());
}
