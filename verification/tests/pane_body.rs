use c0pl4nd::grid::PaneId;
use c0pl4nd::grid_interaction::{CellSpan, Selection, SelectionMode};
use c0pl4nd::pane_body::{
    absolute_cell, begin_gesture, body_content, border_alpha, button_reports, copy_enabled, deferred_spawn_cwd,
    drag_extends, drag_rearranges, drag_selection, finish_gesture, link_effects, multi_click_selection,
    preedit_echo, press_selection, release_selection, reports_to_program, taken_by_program,
    wheel_reports, wheel_scrolls_locally, BodyContent, ButtonFrame, CopyRange, DragFrame, MouseButton,
    MouseEventKind, MultiClick, PaneContent, PointerFrame, PressFrame,
};

fn pane() -> PaneId {
    PaneId::new(3)
}

fn idle() -> ButtonFrame {
    ButtonFrame { pressed: false, released: false, down: false }
}

#[test]
fn the_program_gets_the_mouse_only_where_it_asked() {
    assert!(reports_to_program(true, false, false));
    assert!(!reports_to_program(false, false, false));
    assert!(!reports_to_program(true, true, false));
    assert!(!reports_to_program(true, false, true));
    let p = PointerFrame {
        primary: ButtonFrame { pressed: true, released: false, down: true },
        middle: idle(),
        secondary: ButtonFrame { pressed: false, released: true, down: false },
        dragged: false,
        hovered: true,
    };
    let reports = button_reports(&p);
    assert_eq!(reports[0].button, MouseButton::Left);
    assert_eq!(reports[0].kind, MouseEventKind::Press);
    assert!(reports
        .iter()
        .any(|r| r.button == MouseButton::Right && r.kind == MouseEventKind::Release));
    let accepted = vec![false; reports.len()];
    assert!(!taken_by_program(&reports, &accepted));
    assert_eq!(wheel_reports(true, 0).len(), 1);
    assert_eq!(wheel_reports(false, 99).len(), 8);
    assert!(wheel_reports(true, 3).iter().all(|r| r.button == MouseButton::WheelUp));
}

#[test]
fn a_drag_selects_and_a_plain_click_clears() {
    let mut sel: Option<Selection> = None;
    assert!(press_selection(&mut sel, pane(), true, true, Some((4, 2)), false));
    assert!(drag_extends(&sel, pane(), true));
    assert!(drag_selection(&mut sel, pane(), true, Some((5, 6)), None));
    let s = sel.unwrap();
    assert_eq!((s.anchor, s.head, s.mode), ((4, 2), (5, 6), SelectionMode::Linewise));
    assert!(copy_enabled(&sel, pane()));
    assert!(!copy_enabled(&sel, PaneId::new(9)));
    let copy = release_selection(&mut sel, pane(), true, false, true, 4, 10);
    assert_eq!(copy, Some(CopyRange { from: (0, 2), to: (1, 6), block: false }));

    press_selection(&mut sel, pane(), true, true, Some((4, 2)), false);
    assert_eq!(release_selection(&mut sel, pane(), true, false, true, 4, 10), None);
    assert_eq!(sel, None, "a click that does not move selects nothing");
    press_selection(&mut sel, pane(), true, true, Some((0, 0)), true);
    assert_eq!(sel.unwrap().mode, SelectionMode::Block);
}

#[test]
fn a_double_click_takes_a_word_and_a_triple_click_a_line() {
    let row: Vec<char> = "git status".chars().collect();
    let mut sel: Option<Selection> = None;
    let (hit, copy) =
        multi_click_selection(&mut sel, pane(), MultiClick::Word, Some((11, 5)), 10, &row, 80, true);
    assert!(hit);
    let s = sel.unwrap();
    assert_eq!((s.anchor.0, s.anchor.1), (11, 4));
    assert!(copy.is_some());
    let (hit, _) =
        multi_click_selection(&mut sel, pane(), MultiClick::Line, Some((11, 5)), 10, &row, 80, true);
    assert!(hit);
    assert_eq!(sel.unwrap().anchor, (11, 0));
    assert_eq!(absolute_cell(10, Some((2, 3))), Some((12, 3)));
}

#[test]
fn a_pane_starts_where_it_was_or_where_the_program_was_started() {
    let mut startup = Some("/start".to_string());
    assert_eq!(
        deferred_spawn_cwd(Some("/kept".to_string()), &mut startup).as_deref(),
        Some("/kept")
    );
    assert_eq!(deferred_spawn_cwd(None, &mut startup).as_deref(), Some("/start"));
    assert_eq!(deferred_spawn_cwd(None, &mut startup), None);
}

#[test]
fn a_body_shows_its_grid_or_says_why_not() {
    assert_eq!(body_content(&PaneContent::Live, true), BodyContent::Grid { glyphs: false });
    assert_eq!(body_content(&PaneContent::Live, false), BodyContent::Grid { glyphs: true });
    assert_eq!(
        body_content(&PaneContent::Failed("no shell".to_string()), false),
        BodyContent::Message("no shell".to_string())
    );
    assert!(matches!(body_content(&PaneContent::Empty, false), BodyContent::Message(_)));
    assert_eq!(border_alpha(true, 20), 150);
    assert_eq!(border_alpha(true, 200), 200);
    assert_eq!(border_alpha(false, 20), 20);
}

#[test]
fn links_open_only_under_the_modifier() {
    let links = vec![(CellSpan { line: 0, col_start: 2, col_end: 8 }, "https://x".to_string())];
    let on = link_effects(&links, true, Some((0, 3)), Some((0, 3)));
    assert!(on.underline_all);
    assert_eq!(on.open.as_deref(), Some("https://x"));
    let off = link_effects(&links, false, Some((0, 3)), Some((0, 3)));
    assert_eq!(off.open, None);
    assert!(wheel_scrolls_locally(true, true, false));
    assert!(!wheel_scrolls_locally(true, true, true));
    assert!(drag_rearranges(true, false, false));
    assert!(!drag_rearranges(true, true, false));
    assert!(!drag_rearranges(true, false, true));
    assert_eq!(preedit_echo(true, true, &Some("か".to_string())).as_deref(), Some("か"));
    assert_eq!(preedit_echo(false, true, &Some("か".to_string())), None);
}

#[test]
fn a_gesture_runs_from_press_to_release() {
    let mut sel: Option<Selection> = None;
    let row: Vec<char> = "say hello now".chars().collect();
    let press = PressFrame {
        over_body: true,
        pressed: true,
        alt: true,
        cell: Some((12, 5)),
        click: MultiClick::No,
        window_start: 10,
        cols: 13,
        has_term: true,
    };
    let g = begin_gesture(&mut sel, pane(), &press, &row);
    assert!(g.captured && g.copy.is_none());
    assert_eq!(sel.unwrap().mode, SelectionMode::Block);
    let drag = DragFrame {
        dragged: true,
        clamped: Some((13, 8)),
        cell: None,
        released: true,
        click: MultiClick::No,
        has_term: true,
        window_start: 10,
        rows: 24,
    };
    let g = finish_gesture(&mut sel, pane(), &drag, g);
    assert!(g.captured);
    assert_eq!(g.copy, Some(CopyRange { from: (2, 5), to: (3, 8), block: true }));
    let idle = begin_gesture(&mut None, pane(), &PressFrame { pressed: false, ..press }, &row);
    let g = finish_gesture(&mut sel, PaneId::new(9), &drag, idle);
    assert!(!g.captured && g.copy.is_none(), "another pane's drag is not taken");

    let double = PressFrame { click: MultiClick::Word, alt: false, ..press };
    let g = begin_gesture(&mut sel, pane(), &double, &row);
    assert_eq!(g.copy, Some(CopyRange { from: (2, 4), to: (2, 8), block: false }));
}
