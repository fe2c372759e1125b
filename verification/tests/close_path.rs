use c0pl4nd::app::{C0pl4ndApp, Config, PanelSide, ViewMode};
use c0pl4nd::close::{
    confirm_message, request_explicit_quit, take_explicit_quit, CloseOutcome, WindowCmd,
    WindowConfig,
};
use c0pl4nd::config_watch::ConfigWatcher;
use c0pl4nd::dispatch::WindowEffect;
use c0pl4nd::frame::{cursor_blink_on, CursorBlinkPhase};
use c0pl4nd::grid::{PaneId, SplitDir};
use c0pl4nd::paint_grid::{
    paint_grid_native, Caret, CaretShape, CursorStyle, PaintOp, ScreenEffects,
};
use c0pl4nd::panes::TermInfo;
use c0pl4nd::shells::{ShellProfile, SpawnPlan};

fn config() -> Config {
    Config {
        window: WindowConfig { warn_on_close_running: true, close_to_tray: false, padding: 8 },
        view_mode: ViewMode::Grid,
        history_sidebar_side: PanelSide::Right,
        history_capture_enabled: true,
        check_on_launch: false,
        channel: "stable".to_string(),
        term: "xterm-256color".to_string(),
        cursor_blink: true,
        crt_scanlines: false,
        animations_enabled: true,
        copy_on_select: false,
    }
}

fn bootstrap() -> C0pl4ndApp {
    C0pl4ndApp::bootstrap_with(config(), Vec::new(), None, ConfigWatcher::new())
}

fn attach_busy_pane(app: &mut C0pl4ndApp) -> PaneId {
    let pane = PaneId::new(app.panes.next_id);
    app.panes.next_id += 1;
    app.panes.terms.push(TermInfo {
        pane,
        busy: true,
        title: None,
        cwd: None,
        size: (80, 24),
        grid_text: None,
    });
    pane
}

fn os_close(app: &mut C0pl4ndApp, quit: &mut bool) {
    let _ = app.close_signals(true, false, quit);
}

#[test]
fn a_running_command_reaches_close_guard_and_holds_the_close() {
    let mut app = bootstrap();
    assert!(app.config.window.warn_on_close_running, "the running-command guard ships ON");
    assert_eq!(app.busy_pane_count(), 0, "a fresh app has nothing running");
    assert_eq!(
        app.close_decision(false),
        CloseOutcome::Exit,
        "with nothing running the close must go straight through"
    );

    attach_busy_pane(&mut app);

    assert_eq!(app.busy_pane_count(), 1);
    assert_eq!(
        app.close_decision(false),
        CloseOutcome::Confirm { busy_panes: 1 },
        "a command in flight must HOLD the close for confirmation, carrying the real pane count"
    );
}

#[test]
fn a_confirmed_close_proceeds_while_the_command_is_still_running() {
    let mut app = bootstrap();
    attach_busy_pane(&mut app);
    assert_eq!(app.close_decision(false), CloseOutcome::Confirm { busy_panes: 1 });

    app.close.close_confirmed = true;

    assert_eq!(app.busy_pane_count(), 1, "the command is STILL running");
    assert_eq!(app.close_decision(false), CloseOutcome::Exit);
}

#[test]
fn the_warn_preference_off_never_holds_a_close() {
    let mut app = bootstrap();
    attach_busy_pane(&mut app);
    assert_eq!(app.close_decision(false), CloseOutcome::Confirm { busy_panes: 1 });

    app.config.window.warn_on_close_running = false;

    assert_eq!(app.close_decision(false), CloseOutcome::Exit);
}

#[test]
fn no_tray_always_exits_even_with_close_to_tray_on() {
    let mut app = bootstrap();
    app.config.window.close_to_tray = true;
    assert!(!app.tray_available(), "precondition: nothing has reported a tray");
    assert_eq!(
        app.close_decision(false),
        CloseOutcome::Exit,
        "close-to-tray with NO tray must exit, never hide an unrecoverable window"
    );

    app.set_tray_available(true);

    assert_eq!(app.close_decision(false), CloseOutcome::HideToTray);
}

#[test]
fn an_explicit_quit_always_exits_even_with_close_to_tray_on() {
    let mut app = bootstrap();
    app.config.window.close_to_tray = true;
    app.set_tray_available(true);
    assert_eq!(app.close_decision(false), CloseOutcome::HideToTray);
    assert_eq!(
        app.close_decision(true),
        CloseOutcome::Exit,
        "an explicit quit must never be swallowed by close-to-tray"
    );
}

#[test]
fn the_running_command_guard_runs_before_the_tray_action() {
    let mut app = bootstrap();
    app.config.window.close_to_tray = true;
    app.set_tray_available(true);
    attach_busy_pane(&mut app);

    assert_eq!(
        app.close_decision(false),
        CloseOutcome::Confirm { busy_panes: 1 },
        "the guard must be consulted first"
    );

    app.close.close_confirmed = true;
    assert_eq!(
        app.close_decision(false),
        CloseOutcome::HideToTray,
        "once confirmed, the tray action gets its say"
    );
}

#[test]
fn the_explicit_quit_flag_is_delivered_once_and_consumed() {
    let mut flag = false;
    assert!(!take_explicit_quit(&mut flag), "precondition: no quit pending");

    request_explicit_quit(&mut flag);

    assert!(take_explicit_quit(&mut flag), "the tray Quit must reach the close path");
    assert!(!take_explicit_quit(&mut flag), "...and be consumed");
}

#[test]
fn an_os_close_request_runs_the_decision_and_exits() {
    let mut app = bootstrap();
    let mut quit = false;
    assert_eq!(app.close_signals(false, false, &mut quit), (None, None));
    assert_eq!(app.exit_requests(), 0, "an ordinary frame must not close the app");
    assert_eq!(app.last_close_outcome(), None, "...nor decide anything");

    os_close(&mut app, &mut quit);

    assert_eq!(
        app.last_close_outcome(),
        Some(CloseOutcome::Exit),
        "the OS close must go through close_guard + close_action"
    );
    assert_eq!(app.exit_requests(), 1, "...and reach the exit");
}

#[test]
fn an_os_close_request_is_held_by_a_running_command() {
    let mut app = bootstrap();
    let mut quit = false;
    attach_busy_pane(&mut app);

    let (os, key) = app.close_signals(true, false, &mut quit);
    assert!(os.unwrap().cancel_close, "the accepted close must be cancelled");
    assert_eq!(key, None);

    assert_eq!(app.exit_requests(), 0);
    assert_eq!(app.close_confirm_busy_panes(), Some(1));
}

#[test]
fn alt_f4_runs_the_close_decision() {
    let mut app = bootstrap();
    let mut quit = false;
    attach_busy_pane(&mut app);

    let (_, key) = app.close_signals(false, true, &mut quit);
    assert!(!key.unwrap().cancel_close, "there is nothing to cancel");

    assert_eq!(app.exit_requests(), 0, "Alt+F4 must be held by the running-command guard");
    assert_eq!(app.close_confirm_busy_panes(), Some(1));
}

#[test]
fn answering_the_confirmation_closes_the_app() {
    let mut app = bootstrap();
    let mut quit = false;
    attach_busy_pane(&mut app);
    os_close(&mut app, &mut quit);
    assert_eq!(app.close_confirm_busy_panes(), Some(1), "precondition: the confirmation is up");

    let done = app.answer_close_confirmation(true, false).expect("an answer was given");
    assert!(done.shut_down);

    assert_eq!(app.close_confirm_busy_panes(), None, "the confirmation must be dismissed");
    assert_eq!(app.exit_requests(), 1, "...and the close must go through");
}

#[test]
fn declining_the_confirmation_keeps_the_app_running() {
    let mut app = bootstrap();
    let mut quit = false;
    attach_busy_pane(&mut app);
    os_close(&mut app, &mut quit);
    assert_eq!(app.close_confirm_busy_panes(), Some(1), "precondition");

    assert_eq!(app.answer_close_confirmation(false, true), None);

    assert_eq!(app.close_confirm_busy_panes(), None, "dismissed");
    assert_eq!(app.exit_requests(), 0, "the app is still running");
    assert!(!app.close.close_confirmed, "declining must NOT be remembered as consent");

    os_close(&mut app, &mut quit);
    assert_eq!(app.close_confirm_busy_panes(), Some(1), "the next close warns again");
    assert_eq!(app.exit_requests(), 0);
}

#[test]
fn clicking_the_caption_close_runs_the_close_decision() {
    let mut app = bootstrap();
    assert_eq!(app.exit_requests(), 0, "precondition: still running");

    let effect = app.window_command(WindowCmd::Close);
    assert!(matches!(effect, WindowEffect::Close(e) if e.shut_down));

    assert_eq!(app.last_window_cmd(), Some(WindowCmd::Close));
    assert_eq!(app.last_close_outcome(), Some(CloseOutcome::Exit));
    assert_eq!(app.exit_requests(), 1, "...and reach the exit branch");
}

#[test]
fn clicking_the_caption_close_is_held_by_a_running_command() {
    let mut app = bootstrap();
    attach_busy_pane(&mut app);

    app.window_command(WindowCmd::Close);

    assert_eq!(app.exit_requests(), 0);
    assert_eq!(app.close_confirm_busy_panes(), Some(1), "the confirmation must be up");
}

fn activate_profile(app: &mut C0pl4ndApp, program: &str, args: &[&str]) {
    app.shells.shell_profiles.push(ShellProfile {
        label: "Probe".to_string(),
        program: Some(program.to_string()),
        args: args.iter().map(|a| a.to_string()).collect(),
    });
    app.shells.active_shell = app.shells.shell_profiles.len() - 1;
}

#[test]
fn a_named_profile_pane_opens_in_the_requested_directory() {
    let mut app = bootstrap();
    activate_profile(&mut app, "probe-shell", &["-c", "pwd"]);

    let spawn = app
        .split_in(SplitDir::Horizontal, Some("/work/here".to_string()))
        .expect("the probe pane must open");
    assert_eq!(spawn.pane, app.focused_pane(), "the new pane is the focused one");
    assert_eq!(
        spawn.plan,
        SpawnPlan::Program {
            program: "probe-shell".to_string(),
            args: vec!["-c".to_string(), "pwd".to_string()],
            cols: 80,
            rows: 24,
            cwd: Some("/work/here".to_string()),
        },
        "a named-profile pane must RUN in the requested cwd"
    );
}

#[test]
fn the_deferred_first_spawn_honours_the_active_shell_profile() {
    let mut app = bootstrap();
    activate_profile(&mut app, "c0pl4nd-no-such-program-exists", &[]);
    assert_eq!(app.term_count(), 0, "precondition: the initial pane's PTY is DEFERRED");
    let pane = app.focused_pane();
    let mut startup: Option<String> = None;

    let dir = app.panes.start_pending(pane, 120, 40, &mut startup).expect("the pane waits");
    let plan = app.shells.plan_spawn(120, 40, "xterm", &dir);
    assert!(
        matches!(&plan, SpawnPlan::Program { program, .. } if program == "c0pl4nd-no-such-program-exists"),
        "the deferred spawn must use the ACTIVE profile"
    );
    assert_eq!(app.term_count(), 1, "the deferred pane exists");
    assert_eq!(app.pane_size(pane), Some((120, 40)));
}

#[test]
fn the_deferred_first_spawn_carries_the_restored_cwd_through_a_named_profile() {
    let mut app = bootstrap();
    activate_profile(&mut app, "probe-shell", &["-c", "pwd"]);
    let pane = app.focused_pane();
    app.panes.restored_cwds.push((pane, "/was/here".to_string()));
    let mut startup = Some("/from/the/command/line".to_string());

    let dir = app.panes.start_pending(pane, 80, 24, &mut startup).expect("the pane waits");
    assert_eq!(dir.as_deref(), Some("/was/here"));
    assert!(startup.is_some(), "the restored directory leaves the other one alone");
    let plan = app.shells.plan_spawn(80, 24, "xterm", &dir);
    assert!(
        matches!(&plan, SpawnPlan::Program { cwd, .. } if cwd.as_deref() == Some("/was/here")),
        "the deferred spawn must run in the RESTORED cwd"
    );
    assert_eq!(app.panes.start_pending(pane, 80, 24, &mut startup), None, "it waits only once");
}

fn ms(t: f64) -> u64 {
    (t * 1000.0).round() as u64
}

#[test]
fn cursor_blink_on_covers_every_input_combination() {
    for &blink in &[true, false] {
        for &focused in &[true, false] {
            if blink && focused {
                continue;
            }
            for &t in &[0.0, 0.3, 0.6, 1.05, 7.77] {
                assert!(
                    cursor_blink_on(None, blink, focused, ms(t)),
                    "a non-blinking caret is steady ON (blink={blink} focused={focused} t={t})"
                );
            }
        }
    }

    assert!(cursor_blink_on(None, true, true, ms(0.0)));
    assert!(cursor_blink_on(None, true, true, ms(0.52)));
    assert!(!cursor_blink_on(None, true, true, ms(0.54)));
    assert!(!cursor_blink_on(None, true, true, ms(1.05)));
    assert!(cursor_blink_on(None, true, true, ms(1.07)), "next period wraps ON");

    for &blink in &[true, false] {
        for &focused in &[true, false] {
            for &t in &[0.0, 0.54, 1.05, 42.5] {
                assert!(
                    cursor_blink_on(Some(CursorBlinkPhase::On), blink, focused, ms(t)),
                    "pinned ON must paint (blink={blink} focused={focused} t={t})"
                );
                assert!(
                    !cursor_blink_on(Some(CursorBlinkPhase::Off), blink, focused, ms(t)),
                    "pinned OFF must not paint (blink={blink} focused={focused} t={t})"
                );
            }
        }
    }
}

fn carets(app: &C0pl4ndApp, time_ms: u64) -> usize {
    let caret = Caret {
        cell: Some((2, 3)),
        style: CursorStyle::Block,
        blink: app.config.cursor_blink,
        focused: true,
        pinned_phase: app.cursor_blink_phase(),
        time_ms,
    };
    let fx = ScreenEffects {
        ghosts: false,
        faux_bold: false,
        crt_scanlines: false,
        animations_enabled: true,
        reduced_motion: false,
    };
    let ops = paint_grid_native(&Vec::new(), &caret, &fx);
    ops.iter()
        .filter(|op| matches!(op, PaintOp::Caret { row: 2, col: 3, shape: CaretShape::Filled }))
        .count()
}

#[test]
fn the_pinned_cursor_phase_reaches_the_painter() {
    let mut app = bootstrap();
    assert!(app.config.cursor_blink, "precondition: the caret blinks by default");

    app.set_cursor_blink_phase(Some(CursorBlinkPhase::On));
    assert!(carets(&app, 600) > 0, "with the phase pinned ON the caret must be painted");

    app.set_cursor_blink_phase(Some(CursorBlinkPhase::Off));
    assert_eq!(carets(&app, 0), 0, "pinning the phase OFF must remove the caret");

    app.set_cursor_blink_phase(Some(CursorBlinkPhase::On));
    assert!(carets(&app, 600) > 0, "pinning it back ON must restore the caret");

    app.set_cursor_blink_phase(None);
    assert_eq!(carets(&app, 600), 0, "a free caret is off in the second half of its period");
}

#[test]
fn a_tray_quit_is_used_up_by_the_close_it_came_with() {
    let mut app = bootstrap();
    app.config.window.close_to_tray = true;
    app.set_tray_available(true);
    let mut quit = false;
    request_explicit_quit(&mut quit);

    let (os, key) = app.close_signals(true, true, &mut quit);
    assert!(os.unwrap().shut_down, "the quit exits");
    assert!(key.unwrap().hide, "the chord after it only hides");
    assert!(!quit);
    assert_eq!(app.exit_requests(), 1);
}

#[test]
fn hiding_forgets_a_recorded_answer() {
    let mut app = bootstrap();
    app.config.window.close_to_tray = true;
    app.set_tray_available(true);
    attach_busy_pane(&mut app);
    let mut quit = false;
    os_close(&mut app, &mut quit);
    let done = app.answer_close_confirmation(true, false).unwrap();
    assert!(done.hide && !done.cancel_close && !done.shut_down);
    assert_eq!(app.last_close_outcome(), Some(CloseOutcome::HideToTray));
    os_close(&mut app, &mut quit);
    assert_eq!(app.close_confirm_busy_panes(), Some(1));
}

#[test]
fn a_held_quit_exits_once_it_is_confirmed() {
    let mut app = bootstrap();
    app.config.window.close_to_tray = true;
    app.close.tray_available = true;
    attach_busy_pane(&mut app);
    let before = app.close.exit_requests;
    let mut quit = false;
    request_explicit_quit(&mut quit);
    os_close(&mut app, &mut quit);
    assert_eq!(app.close.last_close_outcome, Some(CloseOutcome::Confirm { busy_panes: 1 }));
    // A click on the caption button while it waits does not turn it into a hide.
    let _ = app.window_command(WindowCmd::Close);
    let done = app.answer_close_confirmation(true, false).unwrap();
    assert!(done.shut_down && !done.hide);
    assert_eq!(app.close.last_close_outcome, Some(CloseOutcome::Exit));
    assert_eq!(app.close.exit_requests, before + 1);
    assert_eq!(app.close.close_confirm, None);
}

#[test]
fn a_declined_quit_is_forgotten() {
    let mut app = bootstrap();
    app.config.window.close_to_tray = true;
    app.close.tray_available = true;
    attach_busy_pane(&mut app);
    let mut quit = false;
    request_explicit_quit(&mut quit);
    os_close(&mut app, &mut quit);
    assert_eq!(app.answer_close_confirmation(false, true), None);
    assert!(!app.close.held_quit);
    os_close(&mut app, &mut quit);
    let done = app.answer_close_confirmation(true, false).unwrap();
    assert!(done.hide && !done.shut_down, "closing the window only hides it");
}

#[test]
fn the_confirmation_counts_its_panes() {
    assert_eq!(
        confirm_message(1),
        "1 pane still have a command running. Closing ends them immediately."
    );
    assert_eq!(
        confirm_message(12),
        "12 panes still have a command running. Closing ends them immediately."
    );
}
