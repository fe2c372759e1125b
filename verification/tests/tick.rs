use c0pl4nd::actions::{Action, PaletteEntry};
use c0pl4nd::app::{C0pl4ndApp, Config, PanelSide, Startup, ViewMode};
use c0pl4nd::close::WindowConfig;
use c0pl4nd::colors::ColorSet;
use c0pl4nd::config_watch::ConfigWatcher;
use c0pl4nd::frame::{AtlasKey, FONT_WAIT_GATE_CAP};
use c0pl4nd::grid::PaneId;
use c0pl4nd::layout::LayoutSnapshot;
use c0pl4nd::scrollbar::Rgb;
use c0pl4nd::shells::ShellProfile;
use c0pl4nd::tick::{
    latest_progress, pump_pane_effects, wants_attention, HostEffects, Notification, Part,
    ProgressReport,
};

fn p(id: u64) -> PaneId {
    PaneId::new(id)
}

fn start() -> Startup {
    Startup {
        config: Config {
            window: WindowConfig { warn_on_close_running: true, close_to_tray: false, padding: 8 },
            view_mode: ViewMode::Grid,
            history_sidebar_side: PanelSide::Right,
            history_capture_enabled: true,
            check_on_launch: true,
            channel: "stable".to_string(),
            term: "xterm".to_string(),
            cursor_blink: true,
            crt_scanlines: false,
            animations_enabled: true,
            copy_on_select: false,
        },
        shell_profiles: vec![ShellProfile {
            label: "bash".to_string(),
            program: None,
            args: Vec::new(),
        }],
        theme_notice: None,
        config_error: None,
        config_watch: ConfigWatcher::new(),
        snapshot: None,
        config_missing: false,
        live_window: true,
    }
}

fn key(size_bits: u32) -> AtlasKey {
    AtlasKey { family: "mono".to_string(), size_bits, scale_bits: 1 }
}

#[test]
fn a_window_opens_with_its_kept_layout() {
    let a = C0pl4ndApp::new(start());
    assert_eq!(a.all_panes(), vec![p(0)]);
    assert_eq!(a.notices.toast, None);
    assert!(a.warmup.fonts_installed && a.window.live_window);

    let tree = egui_tiles::Tree::new_grid("g", vec![4u64, 7]);
    let kept = LayoutSnapshot {
        tree,
        cwds: vec![(p(7), "/home".to_string())],
        focused: p(7),
        pinned: vec![p(4)],
        next_id: 2,
    };
    let mut s = start();
    s.snapshot = Some(kept);
    s.theme_notice = Some("no such theme".to_string());
    s.config_error = Some("line 3".to_string());
    let a = C0pl4ndApp::new(s);
    assert_eq!(a.all_panes(), vec![p(4), p(7)]);
    assert_eq!(a.focused_pane(), p(7));
    assert!(a.is_pinned(p(4)));
    assert_eq!(a.panes.next_id, 8, "a new pane never takes the number of a kept one");
    assert_eq!(a.notices.toast.as_deref(), Some("line 3"), "the config comes before the theme");

    let mut s = start();
    s.config_missing = true;
    let a = C0pl4ndApp::new(s);
    assert!(a.notices.toast.unwrap().starts_with("Welcome to C0PL4ND"));
}

#[test]
fn settings_reach_the_history() {
    let mut a = C0pl4ndApp::new(start());
    a.run_command_in_focused("ls", "ls");
    a.apply_settings(false, Some(false));
    assert_eq!(a.command_history_entries().len(), 1);
    a.apply_settings(true, None);
    assert!(a.command_history_entries().is_empty());
    a.run_command_in_focused("ls", "ls");
    a.apply_settings(false, Some(true));
    assert!(a.is_incognito());
    assert!(a.command_history_entries().is_empty(), "incognito forgets");
}

#[test]
fn a_frame_is_prepared_once_per_font() {
    let mut a = C0pl4ndApp::new(start());
    let (raise, fonts) = a.prepare_frame(key(12), false, 100);
    assert!(raise, "the window comes to the front on its first frame");
    assert!(!fonts.install_fonts && fonts.prepare_glyphs && !fonts.wait);
    assert_eq!(a.window.first_frame_time, Some(100));
    let (raise, fonts) = a.prepare_frame(key(12), false, 200);
    assert!(!raise && !fonts.prepare_glyphs);
    assert_eq!(a.window.first_frame_time, Some(100));
    let (_, fonts) = a.prepare_frame(key(13), true, 300);
    assert!(fonts.prepare_glyphs && fonts.wait);
    for _ in 0..FONT_WAIT_GATE_CAP {
        a.prepare_frame(key(13), true, 300);
    }
    let (_, fonts) = a.prepare_frame(key(13), true, 300);
    assert!(!fonts.wait, "a font that never comes does not hide the grid");
}

#[test]
fn the_window_is_settled() {
    let mut a = C0pl4ndApp::new(start());
    assert_eq!(a.settle_window(false, false, Some(true), Some(false)), (false, None));
    assert!(a.fullscreen(), "what the system says holds");
    let mut startup: Option<String> = None;
    a.panes.start_pending(p(0), 80, 24, &mut startup);
    let (left, told) = a.settle_window(true, false, Some(true), Some(true));
    assert!(left && !a.fullscreen(), "Escape leaves fullscreen");
    assert_eq!(told, Some((p(0), true)), "the terminal is told that the focus is back");
    assert_eq!(a.settle_window(true, true, Some(true), Some(true)), (false, None));
    assert!(!a.fullscreen(), "a toggle of this frame is not undone");
}

#[test]
fn parts_are_drawn_from_the_bottom_up() {
    let mut a = C0pl4ndApp::new(start());
    assert_eq!(a.parts(true), vec![Part::TitleBar, Part::StatusBar, Part::Grid]);
    assert_eq!(a.parts(false), vec![Part::TitleBar, Part::Grid]);
    a.window.fullscreen = true;
    a.close.close_confirm = Some(2);
    a.toggle_palette();
    assert_eq!(a.parts(true), vec![Part::Grid, Part::Palette, Part::CloseConfirmation]);
}

#[test]
fn effects_of_all_terminals_are_gathered() {
    let red = ColorSet::Indexed { index: 1, rgb: Rgb { r: 255, g: 0, b: 0 } };
    let done = Notification { title: None, body: "done".to_string() };
    let built =
        Notification { title: Some("cargo".to_string()), body: "built".to_string() };
    let half = ProgressReport { state: 1, percent: 50 };
    let full = ProgressReport { state: 1, percent: 100 };
    let fx = vec![
        HostEffects {
            clipboard_writes: vec!["a".to_string()],
            color_sets: vec![],
            notifications: vec![done],
            progress: vec![half],
        },
        HostEffects {
            clipboard_writes: vec!["b".to_string()],
            color_sets: vec![red],
            notifications: vec![built],
            progress: vec![half, full],
        },
    ];
    let all = pump_pane_effects(fx);
    assert_eq!(all.clipboard_writes, vec!["a".to_string(), "b".to_string()]);
    assert_eq!(all.color_sets, vec![red]);
    let said: Vec<&str> = all.notifications.iter().map(|n| n.body.as_str()).collect();
    assert_eq!(said, vec!["done", "built"]);
    assert_eq!(all.notifications[1].title.as_deref(), Some("cargo"));
    assert_eq!(all.progress, vec![half, half, full]);
    assert_eq!(latest_progress(&all.progress), Some(full), "only the last report shows");
    assert_eq!(latest_progress(&Vec::new()), None);
    assert!(wants_attention(&all.notifications, Some(false)));
    assert!(!wants_attention(&all.notifications, Some(true)));
    assert!(!wants_attention(&all.notifications, None), "unknown counts as focused");
    assert!(!wants_attention(&Vec::new(), Some(false)));
}

#[test]
fn the_rows_of_the_palette_say_what_they_do() {
    let mut a = C0pl4ndApp::new(start());
    a.toggle_palette();
    let mut scores: Vec<Option<i32>> = vec![None; 20];
    scores[0] = Some(1);
    scores[2] = Some(9);
    let rows = a.palette_results(&vec!["ls".to_string()], &scores);
    let actions = Action::all();
    assert!(rows.contains(&PaletteEntry::Action(actions[2])));
    let labels: Vec<String> = (0..20).map(|i| format!("label {i}")).collect();
    let mut chords: Vec<Option<String>> = vec![None; 20];
    chords[2] = Some("Ctrl+P".to_string());
    let said = a.palette_row_labels(&rows, &labels, &chords);
    let best = said.iter().position(|s| s == "label 2   (Ctrl+P)").unwrap();
    let next = said.iter().position(|s| s == "label 0").unwrap();
    assert!(best < next, "the better match comes first");
}
