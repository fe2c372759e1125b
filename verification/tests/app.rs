use c0pl4nd::actions::{Action, PaletteEntry};
use c0pl4nd::app::{C0pl4ndApp, Config, PanelSide, ViewMode};
use c0pl4nd::close::WindowConfig;
use c0pl4nd::config_watch::ConfigWatcher;
use c0pl4nd::dispatch::{ActionEffect, ActionInput, ContextMenuAction};
use c0pl4nd::grid::{Direction, PaneId, SplitDir};
use c0pl4nd::grid_interaction::{Candidate, CellSpan, Selection, SelectionMode};
use c0pl4nd::input_forward::{collect_input, InputEvent, KeyInput};
use c0pl4nd::keys::{Key, Modifiers, KEY_ENTER};
use c0pl4nd::pane_body::CopyRange;
use c0pl4nd::paste::PasteConfirmReason;
use c0pl4nd::shells::{ShellProfile, SpawnPlan};
use c0pl4nd::typing::Neighbours;

fn app() -> C0pl4ndApp {
    let config = Config {
        window: WindowConfig { warn_on_close_running: true, close_to_tray: false, padding: 8 },
        view_mode: ViewMode::Grid,
        history_sidebar_side: PanelSide::Right,
        history_capture_enabled: true,
        check_on_launch: true,
        channel: "stable".to_string(),
        term: "xterm".to_string(),
        cursor_blink: true,
        crt_scanlines: false,
        animations_enabled: true,
        copy_on_select: false,
    };
    let profiles = vec![ShellProfile {
        label: "bash".to_string(),
        program: None,
        args: Vec::new(),
    }];
    C0pl4ndApp::bootstrap_with(config, profiles, None, ConfigWatcher::new())
}

fn p(id: u64) -> PaneId {
    PaneId::new(id)
}

fn input(wide: Option<bool>) -> ActionInput {
    ActionInput { wide, os_fullscreen: None }
}

#[test]
fn a_new_tab_opens_a_pane_and_starts_its_shell() {
    let mut a = app();
    a.notices.toast = Some("old".to_string());
    let effect = a.dispatch_action(Action::NewTab, &input(None));
    let ActionEffect::Start(spawn) = effect else { panic!("a pane opens") };
    assert_eq!(spawn.pane, p(1));
    assert_eq!(
        spawn.plan,
        SpawnPlan::Shell { cols: 80, rows: 24, term: Some("xterm".to_string()) }
    );
    assert_eq!(a.focused_pane(), p(1));
    assert_eq!(a.all_panes(), vec![p(0), p(1)]);
    assert_eq!(a.notices.toast, None);
    for _ in 2..6 {
        a.dispatch_action(Action::SplitRight, &input(None));
    }
    assert_eq!(a.dispatch_action(Action::SplitDown, &input(None)), ActionEffect::Nothing);
    assert_eq!(
        a.notices.toast.as_deref(),
        Some("You've reached the maximum of 6 panes. Close one to open another.")
    );
    assert_eq!(a.pane_count(), 6);
}

#[test]
fn actions_reach_the_shell() {
    let mut a = app();
    let none = input(None);
    assert_eq!(a.dispatch_action(Action::ToggleViewMode, &none), ActionEffect::Nothing);
    assert_eq!(a.view_mode(), ViewMode::Tabs);
    a.window.live_window = true;
    assert_eq!(a.dispatch_action(Action::ToggleViewMode, &none), ActionEffect::SaveConfig);
    assert_eq!(a.view_mode(), ViewMode::Grid);
    a.dispatch_action(Action::ToggleSettings, &none);
    assert!(a.settings_is_open());
    a.dispatch_action(Action::ZoomPane, &none);
    assert_eq!(a.zoomed_pane(), Some(p(0)));
    a.panes.input_line = "half".to_string();
    a.dispatch_action(Action::ToggleCommandPalette, &none);
    assert!(a.palette_open());
    assert_eq!(a.panes.input_line, "");
    a.dispatch_action(Action::ToggleHistorySidebar, &none);
    assert!(a.history_sidebar_open());
    let seen = ActionInput { wide: None, os_fullscreen: Some(true) };
    assert_eq!(
        a.dispatch_action(Action::ToggleFullscreen, &seen),
        ActionEffect::Fullscreen(false)
    );
    assert_eq!(
        a.dispatch_action(Action::ToggleFullscreen, &none),
        ActionEffect::Fullscreen(true)
    );
    assert!(a.fullscreen());
    assert_eq!(a.dispatch_action(Action::DecreaseFont, &none), ActionEffect::FontStep(-1));
    assert_eq!(a.dispatch_action(Action::ResetFont, &none), ActionEffect::FontReset);
    assert_eq!(
        a.dispatch_action(Action::ClearScrollback, &none),
        ActionEffect::ClearScrollback(None),
        "the pane has no terminal yet"
    );
    assert_eq!(a.dispatch_action(Action::CopyAll, &none), ActionEffect::Nothing);
    let mut startup: Option<String> = None;
    a.panes.start_pending(p(0), 80, 24, &mut startup);
    assert_eq!(a.dispatch_action(Action::CopyAll, &none), ActionEffect::CopyAll(p(0)));
    assert_eq!(a.dispatch_action(Action::ClosePane, &none), ActionEffect::Nothing);
    assert_eq!(a.pane_count(), 1, "the last pane stays");
}

/// Which way the line runs that holds the tile of a pane.
fn line_of(a: &C0pl4ndApp, pane: u64) -> egui_tiles::LinearDir {
    let tiles = &a.panes.grid_tree.tiles;
    let parent = tiles.parent_of(tiles.find_pane(&pane).unwrap()).unwrap();
    match tiles.get_container(parent) {
        Some(egui_tiles::Container::Linear(l)) => l.dir,
        other => panic!("{other:?} is no line"),
    }
}

#[test]
fn a_pane_opens_the_way_the_action_says() {
    let across = egui_tiles::LinearDir::Horizontal;
    let down = egui_tiles::LinearDir::Vertical;
    for (action, wide, dir) in [
        (Action::SplitRight, Some(false), across),
        (Action::SplitDown, None, down),
        (Action::NewTab, None, across),
        (Action::NewTab, Some(true), across),
        (Action::NewTab, Some(false), down),
    ] {
        let mut a = app();
        a.dispatch_action(action, &input(wide));
        assert_eq!(line_of(&a, 1), dir, "{action:?}, {wide:?}");
    }
    for (row, wide, dir) in [
        (ContextMenuAction::SplitRight, Some(false), across),
        (ContextMenuAction::SplitDown, Some(true), down),
        (ContextMenuAction::NewTerminal, Some(false), down),
    ] {
        let mut a = app();
        a.apply_context_menu_action(row, wide);
        assert_eq!(line_of(&a, 1), dir, "{row:?}, {wide:?}");
    }
}

#[test]
fn panes_are_laid_out_anew_in_their_order() {
    let mut a = app();
    assert_eq!(a.dispatch_action(Action::EqualizePanes, &input(None)), ActionEffect::Nothing);
    a.dispatch_action(Action::SplitRight, &input(None));
    a.panes.focus_pane(p(0));
    a.dispatch_action(Action::SplitDown, &input(None));
    assert_eq!(a.all_panes(), vec![p(0), p(2), p(1)], "a new pane stands behind the focused");
    assert_eq!(a.dispatch_action(Action::EqualizePanes, &input(None)), ActionEffect::Repaint);
    assert_eq!(a.all_panes(), vec![p(0), p(2), p(1)]);
    let tree = &a.panes.grid_tree;
    let top = tree.tiles.get_container(tree.root().unwrap()).unwrap();
    assert_eq!(top.kind(), egui_tiles::ContainerKind::Grid);
    let shown: Vec<u64> =
        top.children().map(|t| *tree.tiles.get_pane(t).unwrap()).collect();
    assert_eq!(shown, vec![0, 2, 1]);
    assert!(a.equalize_panes());
}

#[test]
fn the_palette_runs_commands_and_actions() {
    let mut a = app();
    let mut startup: Option<String> = None;
    a.panes.start_pending(p(0), 80, 24, &mut startup);
    a.toggle_palette();
    let rows = vec![
        PaletteEntry::History("ls -l".to_string()),
        PaletteEntry::Action(Action::ToggleSettings),
    ];
    let run = a.run_palette_selection(&rows, "", "ls -l", &input(None));
    assert_eq!(run.write.as_deref(), Some("ls -l\r"));
    assert_eq!(run.ran.as_deref(), Some("ls -l"));
    assert_eq!(a.command_history_entries(), vec!["ls -l".to_string()]);
    assert_eq!(a.last_palette_run().as_deref(), Some("ls -l"));
    assert!(!a.palette_open());

    a.toggle_palette();
    a.palette_keys(false, true, false, rows.len());
    let run = a.run_palette_selection(&rows, "Settings", "", &input(None));
    assert_eq!(run.ran.as_deref(), Some("Settings"));
    assert!(a.settings_is_open() && !a.palette_open());
    assert_eq!(a.last_palette_action(), Some(Action::ToggleSettings));

    a.toggle_palette();
    a.palette_keys(true, false, true, rows.len());
    assert!(!a.palette_open(), "Escape closes it");
    let run = a.run_palette_selection(&Vec::new(), "", "", &input(None));
    assert_eq!(run.ran, None);
}

#[test]
fn a_command_goes_to_the_focused_terminal_if_there_is_one() {
    let mut a = app();
    assert_eq!(a.run_command_in_focused("make", "make"), None);
    assert_eq!(a.command_history_entries(), vec!["make".to_string()]);
    let mut startup: Option<String> = None;
    a.panes.start_pending(p(0), 80, 24, &mut startup);
    assert_eq!(a.run_command_in_focused("x --password=1", "x").as_deref(), Some("x --password=1\r"));
    assert_eq!(a.command_history_entries(), vec!["x".to_string(), "make".to_string()]);
    assert_eq!(a.test_run_history_row(&Vec::new(), 1, "make").as_deref(), Some("make"));
    assert_eq!(a.test_run_history_row(&Vec::new(), 9, ""), None);
    a.clear_command_history();
    assert!(a.command_history_entries().is_empty());
    assert_eq!(a.script_command("/a b.sh", false), "'/a b.sh'");
}

#[test]
fn a_command_run_again_is_kept_as_any_other() {
    let mut a = app();
    let mut startup: Option<String> = None;
    a.panes.start_pending(p(0), 80, 24, &mut startup);
    let rows = vec![PaletteEntry::History("x --password=1".to_string())];
    a.toggle_palette();
    let run = a.run_palette_selection(&rows, "", "x --password=***", &input(None));
    assert_eq!(run.write.as_deref(), Some("x --password=1\r"));
    assert_eq!(a.command_history_entries(), vec!["x --password=***".to_string()]);
    a.clear_command_history();
    a.palette.toggle_history_sidebar();
    assert_eq!(
        a.run_history_command("x --password=1", "x --password=***").as_deref(),
        Some("x --password=1\r")
    );
    assert_eq!(a.command_history_entries(), vec!["x --password=***".to_string()]);
    assert_eq!(a.last_palette_run().as_deref(), Some("x --password=1"));
    assert!(!a.history_sidebar_open());
}

#[test]
fn menus_and_tabs_reach_the_panes() {
    let mut a = app();
    assert!(a.apply_context_menu_action(ContextMenuAction::SplitDown, None).is_some());
    a.panes.input_line = "half".to_string();
    a.apply_tab_actions(Some(p(0)), Some(p(1)), None);
    assert_eq!(a.focused_pane(), p(0));
    assert!(a.is_pinned(p(1)));
    assert_eq!(a.panes.input_line, "");
    a.apply_tab_actions(None, Some(p(1)), Some(p(0)));
    assert!(!a.is_pinned(p(1)));
    assert_eq!(a.all_panes(), vec![p(1)]);
    assert_eq!(a.focused_pane(), p(1));
    a.apply_context_menu_action(ContextMenuAction::ClosePane(p(1)), None);
    assert_eq!(a.pane_count(), 1);
}

#[test]
fn another_shell_is_opened_and_stays_active() {
    let mut a = app();
    assert!(a.open_shell(5, None).is_none());
    assert_eq!(a.pane_count(), 1);
    a.shells.shell_profiles.push(ShellProfile {
        label: "Zsh".to_string(),
        program: Some("zsh".to_string()),
        args: Vec::new(),
    });
    let spawn = a.open_shell(1, None).unwrap();
    assert!(matches!(spawn.plan, SpawnPlan::Program { program, .. } if program == "zsh"));
    assert_eq!(a.active_shell_label(), "Zsh");
    assert_eq!(a.shell_profiles().len(), 2);
}

#[test]
fn a_closed_tab_comes_back_with_its_directory() {
    let mut a = app();
    assert!(a.reopen_closed_tab(None).is_none());
    a.panes.push_closed_tab_cwd(Some("/was".to_string()));
    a.panes.focus_pane(p(9));
    assert!(a.reopen_closed_tab(None).is_none(), "there is no place for it");
    a.panes.focus_pane(p(0));
    let spawn = a.reopen_closed_tab(None).unwrap();
    assert_eq!(
        spawn.plan,
        SpawnPlan::ShellIn {
            cols: 80,
            rows: 24,
            term: Some("xterm".to_string()),
            dir: "/was".to_string()
        }
    );
}

fn drawn(ids: Vec<u64>) -> egui_tiles::Tree<u64> {
    egui_tiles::Tree::new_horizontal("drawn", ids)
}

#[test]
fn the_grid_area_is_settled() {
    let mut a = app();
    a.panes.split_in(SplitDir::Horizontal, None);
    a.settle_grid(Some("https://x".to_string()), drawn(vec![1, 0]), Some(p(0)));
    assert_eq!(a.all_panes(), vec![p(1), p(0)]);
    assert_eq!(a.focused_pane(), p(0));
    assert_eq!(a.last_opened_url().as_deref(), Some("https://x"));
    assert_eq!(a.notices.toast, None);
    let root = a.panes.grid_tree.root();

    a.settle_grid(None, drawn((0..7).collect()), None);
    assert_eq!(a.all_panes(), vec![p(1), p(0)]);
    assert_eq!(a.panes.grid_tree.root(), root, "the tree from before is put back");
    assert!(a.panes.grid_tree.tiles.find_pane(&6).is_none());
    assert_eq!(
        a.notices.toast.as_deref(),
        Some("You've reached the maximum of 6 panes. Close one to open another.")
    );
    a.settle_grid(None, drawn(Vec::new()), None);
    assert_eq!(a.pane_count(), 2, "there is always a pane");
}

#[test]
fn a_pane_shown_alone_leaves_the_tree_as_it_is() {
    let mut a = app();
    a.panes.split_in(SplitDir::Horizontal, None);
    a.config.view_mode = ViewMode::Tabs;
    a.settle_grid(None, drawn(vec![1, 0]), None);
    assert_eq!(a.all_panes(), vec![p(0), p(1)], "one tab is shown");
    a.config.view_mode = ViewMode::Grid;
    a.panes.toggle_zoom_pane();
    a.settle_grid(None, drawn(vec![1, 0]), None);
    assert_eq!(a.all_panes(), vec![p(0), p(1)], "one pane is zoomed");
    a.panes.toggle_zoom_pane();
    a.settle_grid(None, drawn(vec![1, 0]), None);
    assert_eq!(a.all_panes(), vec![p(1), p(0)]);
}

#[test]
fn a_selection_is_copied_from_its_pane() {
    let mut a = app();
    a.panes.selection = Some(Selection {
        pane: p(0),
        anchor: (12, 3),
        head: (13, 5),
        mode: SelectionMode::Linewise,
    });
    assert!(a.live_selection().is_none(), "its pane has no terminal");
    let mut startup: Option<String> = None;
    a.panes.start_pending(p(0), 80, 24, &mut startup);
    assert!(a.live_selection().is_some());
    assert_eq!(
        a.selection_copy(10),
        Some(CopyRange { from: (2, 3), to: (3, 5), block: false })
    );
    assert_eq!(a.test_selection(), Some(((12, 3), (13, 5), false)));
    a.clear_selection();
    assert_eq!(a.test_selection(), None);
}

#[test]
fn typed_input_is_taken_in() {
    let mut a = app();
    let mut startup: Option<String> = None;
    a.panes.start_pending(p(0), 80, 24, &mut startup);
    a.panes.terms[0].grid_text = Some("$ make all".to_string());
    let enter = InputEvent::Key(KeyInput {
        key: Key::from_index(KEY_ENTER).unwrap(),
        pressed: true,
        repeat: false,
        mods: Modifiers::none(),
    });
    let events = vec![
        InputEvent::Text("make all".to_string()),
        enter,
        InputEvent::Text("hun".to_string()),
        InputEvent::Paste("a\nb".to_string()),
        InputEvent::Paste("ok".to_string()),
        InputEvent::ImePreedit("か".to_string()),
    ];
    let frame = collect_input(&events, Modifiers::none(), false);
    let nobody = Neighbours { left: vec![], right: vec![], up: vec![], down: vec![] };
    let reasons = vec![Some(PasteConfirmReason::MultiLine), None];
    let out = a.forward_input_to_focused(&frame, &reasons, &nobody);
    assert_eq!(out.keys_to, Some(p(0)));
    assert_eq!(out.pastes_to, Some(p(0)));
    assert_eq!(out.pastes, vec!["ok".to_string()]);
    assert_eq!(out.record, vec!["make all".to_string()]);
    assert_eq!(a.panes.input_line, "hun");
    assert!(a.has_pending_paste());
    assert_eq!(a.pending_paste_reason(), Some(PasteConfirmReason::MultiLine));
    assert_eq!(a.ime_preedit.as_deref(), Some("か"));
    assert_eq!(a.confirm_pending_paste().as_deref(), Some("a\nb"));
    a.set_incognito(true);
    let out = a.forward_input_to_focused(&frame, &reasons, &nobody);
    assert!(out.record.is_empty(), "nothing is recorded incognito");
    a.cancel_pending_paste();
    assert!(!a.has_pending_paste());
}

#[test]
fn a_focus_move_in_the_input_leaves_the_line_behind() {
    let mut a = app();
    a.panes.split_in(SplitDir::Horizontal, None);
    a.panes.input_line = "half".to_string();
    let frame = c0pl4nd::input_forward::InputFrame {
        keys: Vec::new(),
        pastes: Vec::new(),
        ime: None,
        focus: Some(Direction::Left),
    };
    let to = Candidate { pane: p(0), primary: 1, ortho: 0, in_dir: true, overlap: true };
    let around = Neighbours { left: vec![to], right: vec![], up: vec![], down: vec![] };
    let out = a.forward_input_to_focused(&frame, &Vec::new(), &around);
    assert_eq!(out.keys_to, Some(p(1)), "the keys still go to the pane they were typed in");
    assert_eq!(out.pastes_to, None, "the other pane has no terminal");
    assert_eq!(a.focused_pane(), p(0));
    assert_eq!(a.panes.input_line, "");
}

#[test]
fn notices_come_once() {
    let mut a = app();
    assert_eq!(a.update_check_config(), (true, "stable".to_string()));
    a.poll_update_check(Some("early".to_string()));
    assert_eq!(a.last_update_notice(), None, "nobody asked");
    a.attach_update_check();
    a.poll_update_check(None);
    a.poll_update_check(Some("2.0 is out".to_string()));
    assert_eq!(a.notices.toast.as_deref(), Some("2.0 is out"));
    a.poll_update_check(Some("again".to_string()));
    assert_eq!(a.last_update_notice().as_deref(), Some("2.0 is out"));
    let links = vec![(CellSpan { line: 0, col_start: 1, col_end: 4 }, "https://x".to_string())];
    assert_eq!(a.test_open_url_at_cell(&links, 0, 9), None);
    assert_eq!(a.test_open_url_at_cell(&links, 0, 2).as_deref(), Some("https://x"));
    assert_eq!(a.last_opened_url().as_deref(), Some("https://x"));
}

#[test]
fn the_shell_can_be_observed() {
    let mut a = app();
    assert_eq!(a.config_window_padding(), 8);
    assert_eq!(a.history_sidebar_side(), PanelSide::Right);
    assert!(!a.is_incognito());
    assert_eq!(a.term_count(), 0);
    assert!(a.test_last_forwarded().is_empty());
    assert_eq!(a.tab_label_for_pane(p(0)).as_deref(), Some("pane 0"));
    assert_eq!(a.focused_grid_text(), None);
    assert_eq!(a.idle_repaint_interval(false), 530);
    a.config.crt_scanlines = true;
    assert_eq!(a.idle_repaint_interval(false), 0);
    assert_eq!(a.idle_repaint_interval(true), 530);
    a.watch_config_at("/c.toml".to_string(), None);
    assert_eq!(a.config_watch.path().as_deref(), Some("/c.toml"));
    assert_eq!(a.last_window_cmd(), None);
}

#[test]
fn no_action_loses_the_focus() {
    let mut a = app();
    for round in 0..3 {
        for action in Action::all() {
            a.dispatch_action(action, &input(None));
            let open = a.all_panes();
            assert!(!open.is_empty() && open.len() <= 6, "{action:?} in round {round}");
            assert!(open.contains(&a.focused_pane()), "{action:?} in round {round}");
            assert!(open.iter().enumerate().all(|(i, p)| !open[..i].contains(p)));
        }
    }
}
