use c0pl4nd::grid_interaction::CellSpan;
use c0pl4nd::scrollbar::{
    collect_marks, mark_color, paint_order, paint_rank, MarkColors, Rgb, ScrollMark,
    ScrollMarkKind, ScrollMetrics,
};

#[test]
fn total_and_window_start_follow_the_scrollback_model() {
    let m = ScrollMetrics { scrollback_len: 300, view_offset: 0, rows: 40 };
    assert_eq!(m.total(), 340, "total = history + screen");
    assert_eq!(
        m.window_start(),
        300,
        "at the live bottom the window starts after all of history"
    );
    let up = ScrollMetrics { view_offset: 300, ..m };
    assert_eq!(up.window_start(), 0, "scrolled fully up, the window starts at line 0");
}

#[test]
fn autohide_when_nothing_to_scroll() {
    let none = ScrollMetrics { scrollback_len: 0, view_offset: 0, rows: 40 };
    assert!(!none.scrollable(), "no scrollback → nothing to scroll → the bar auto-hides");
    let some = ScrollMetrics { scrollback_len: 1, ..none };
    assert!(some.scrollable(), "any scrollback makes the bar appear");
}

fn mark_colors() -> MarkColors {
    MarkColors {
        search: Rgb { r: 1, g: 0, b: 0 },
        selected: Rgb { r: 2, g: 0, b: 0 },
        prompt: Rgb { r: 3, g: 0, b: 0 },
        error: Rgb { r: 4, g: 0, b: 0 },
    }
}

#[test]
fn mark_color_is_distinct_per_kind_and_selection() {
    let c = mark_colors();
    let prompt = mark_color(ScrollMarkKind::Prompt, false, &c);
    let error = mark_color(ScrollMarkKind::Error, false, &c);
    let hit = mark_color(ScrollMarkKind::SearchHit, false, &c);
    let sel = mark_color(ScrollMarkKind::SearchHit, true, &c);
    assert_eq!(prompt, c.prompt);
    assert_eq!(error, c.error);
    assert_eq!(hit, c.search);
    assert_eq!(sel, c.selected);
    let all = [prompt, error, hit, sel];
    for (i, a) in all.iter().enumerate() {
        for b in all.iter().skip(i + 1) {
            assert_ne!(a, b, "two mark states collapsed onto the same colour");
        }
    }
    assert_eq!(mark_color(ScrollMarkKind::Prompt, true, &c), c.prompt);
    assert_eq!(mark_color(ScrollMarkKind::Error, true, &c), c.error);
}

#[test]
fn search_hits_paint_over_prompt_and_error_marks() {
    assert!(paint_rank(ScrollMarkKind::SearchHit) > paint_rank(ScrollMarkKind::Error));
    assert!(paint_rank(ScrollMarkKind::Error) > paint_rank(ScrollMarkKind::Prompt));
}

#[test]
fn marks_are_painted_layer_by_layer_in_their_own_order() {
    let mark = |abs_line, kind| ScrollMark { abs_line, kind, selected: false };
    let marks = vec![
        mark(1, ScrollMarkKind::SearchHit),
        mark(2, ScrollMarkKind::Prompt),
        mark(3, ScrollMarkKind::Error),
        mark(4, ScrollMarkKind::Prompt),
    ];
    let order: Vec<usize> = paint_order(&marks).iter().map(|m| m.abs_line).collect();
    assert_eq!(order, vec![2, 4, 3, 1]);
}

#[test]
fn a_page_stays_within_the_history() {
    let m = ScrollMetrics { scrollback_len: 100, view_offset: 90, rows: 40 };
    assert_eq!(m.page_target(true), 100);
    assert_eq!(m.page_target(false), 50);
    let low = ScrollMetrics { view_offset: 10, ..m };
    assert_eq!(low.page_target(false), 0);
    assert_eq!(low.scroll_delta(40), 30);
    assert_eq!(low.scroll_delta(0), -10);
}

#[test]
fn marks_of_all_kinds_are_collected() {
    let m = ScrollMetrics { scrollback_len: 100, view_offset: 0, rows: 10 };
    let hits = vec![
        CellSpan { line: 2, col_start: 0, col_end: 3 },
        CellSpan { line: 4, col_start: 0, col_end: 3 },
    ];
    let marks = collect_marks(&m, &vec![5], &vec![7], &hits, 1);
    assert_eq!(marks.iter().filter(|k| k.kind == ScrollMarkKind::Prompt).count(), 1);
    assert_eq!(marks.iter().filter(|k| k.kind == ScrollMarkKind::Error).count(), 1);
    let found: Vec<bool> = marks
        .iter()
        .filter(|k| k.kind == ScrollMarkKind::SearchHit)
        .map(|k| k.selected)
        .collect();
    assert_eq!(found, vec![false, true], "only the second hit is selected");
}

#[test]
fn a_drag_or_a_click_in_the_trough_scrolls() {
    let m = ScrollMetrics { scrollback_len: 100, rows: 24, view_offset: 90 };
    assert_eq!(m.scroll_request(true, Some(40), true, Some(true)), Some(40));
    assert_eq!(m.scroll_request(false, Some(40), true, Some(true)), Some(100));
    assert_eq!(m.scroll_request(false, None, true, Some(false)), Some(66));
    assert_eq!(m.scroll_request(false, None, true, None), None, "a click on the thumb");
    assert_eq!(m.scroll_request(false, Some(40), false, None), None);
}
