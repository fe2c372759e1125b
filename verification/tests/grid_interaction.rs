use c0pl4nd::grid::PaneId;
use c0pl4nd::grid_interaction::{
    autoscroll_step, byte_to_col, clamp_to_grid, is_word_char, lines_per_notch,
    link_span_at_cell, link_url_at_cell, neighbor_in_rects, os_wheel_scroll_lines,
    read_os_wheel_scroll_lines, report_cell, scrub_display_text, selection_visible_rows,
    selection_wash, word_bounds, Candidate, CellSpan, Selection, SelectionMode, WashRow,
    MAX_WHEEL_SCROLL_LINES, WHEEL_PAGESCROLL,
};

#[test]
fn the_os_reader_yields_a_usable_lines_per_notch() {
    let mut known: Option<u32> = None;
    let os = os_wheel_scroll_lines(&mut known, None);
    assert!(os > 0, "the fallback must never be 0");
    let resolved = lines_per_notch(os, 40);
    assert!(
        (1..=MAX_WHEEL_SCROLL_LINES).contains(&resolved),
        "resolved lines-per-notch {resolved} out of range"
    );
    // Cached: two reads agree, whatever the second would have found.
    assert_eq!(os, os_wheel_scroll_lines(&mut known, Some(9)));
    assert_eq!(read_os_wheel_scroll_lines(Some(9)), 9);
    // A setting of zero would disable the wheel: it counts as no answer.
    assert_eq!(read_os_wheel_scroll_lines(Some(0)), 3);
    assert_eq!(read_os_wheel_scroll_lines(None), 3);
    let mut fresh: Option<u32> = None;
    assert_eq!(os_wheel_scroll_lines(&mut fresh, Some(0)), 3);
    assert_eq!(os_wheel_scroll_lines(&mut fresh, Some(7)), 3);
}

#[test]
fn lines_per_notch_is_kept_in_range() {
    assert_eq!(lines_per_notch(0, 40), 1);
    assert_eq!(lines_per_notch(3, 40), 3);
    assert_eq!(lines_per_notch(6, 40), 6);
    assert_eq!(lines_per_notch(100_000, 40), MAX_WHEEL_SCROLL_LINES);
    assert_eq!(lines_per_notch(WHEEL_PAGESCROLL, 24), 23);
    assert_eq!(lines_per_notch(WHEEL_PAGESCROLL, 1), 1);
    assert_eq!(lines_per_notch(WHEEL_PAGESCROLL, 0), 1);
}

#[test]
fn a_selection_is_cut_to_the_window() {
    assert_eq!(selection_visible_rows((2, 4), (5, 6), 3, 10), Some(((0, 0), (2, 6))));
    assert_eq!(selection_visible_rows((5, 6), (2, 4), 3, 10), Some(((0, 0), (2, 6))));
    assert_eq!(selection_visible_rows((1, 0), (2, 9), 3, 10), None);
    assert_eq!(selection_visible_rows((20, 0), (22, 9), 3, 10), None);
    assert_eq!(selection_visible_rows((4, 1), (4, 7), 3, 10), Some(((1, 1), (1, 7))));
}

fn pane(id: u64) -> PaneId {
    PaneId::new(id)
}

#[test]
fn a_selection_is_washed_row_by_row() {
    let sel = Selection {
        pane: pane(1),
        anchor: (0, 3),
        head: (2, 1),
        mode: SelectionMode::Linewise,
    };
    assert_eq!(
        selection_wash(Some(sel), pane(1), 0, 10, 5),
        vec![
            WashRow { row: 0, lo: 3, hi: 9 },
            WashRow { row: 1, lo: 0, hi: 9 },
            WashRow { row: 2, lo: 0, hi: 1 },
        ]
    );
    let block = Selection { mode: SelectionMode::Block, ..sel };
    assert_eq!(
        selection_wash(Some(block), pane(1), 0, 10, 5),
        vec![
            WashRow { row: 0, lo: 1, hi: 3 },
            WashRow { row: 1, lo: 1, hi: 3 },
            WashRow { row: 2, lo: 1, hi: 3 },
        ]
    );
    assert!(selection_wash(Some(sel), pane(2), 0, 10, 5).is_empty());
    assert!(selection_wash(None, pane(1), 0, 10, 5).is_empty());
}

#[test]
fn bytes_become_columns() {
    let line = "aé漢b";
    let wide = vec![false, false, true, false];
    assert_eq!(byte_to_col(line, 0, &wide), 0);
    assert_eq!(byte_to_col(line, 1, &wide), 1);
    assert_eq!(byte_to_col(line, 3, &wide), 2);
    assert_eq!(byte_to_col(line, 6, &wide), 4);
    assert_eq!(byte_to_col(line, 99, &wide), 5);
}

#[test]
fn cells_are_kept_within_the_grid() {
    assert_eq!(clamp_to_grid(99, 99, 80, 24), Some((23, 79)));
    assert_eq!(clamp_to_grid(3, 4, 80, 24), Some((3, 4)));
    assert_eq!(clamp_to_grid(0, 0, 0, 24), None);
    assert_eq!(report_cell(Some((0, 0)), Some((80, 24))), Some((1, 1)));
    assert_eq!(report_cell(None, Some((80, 24))), None);
    assert_eq!(autoscroll_step(3, true), 3);
    assert_eq!(autoscroll_step(3, false), -3);
    assert_eq!(autoscroll_step(50, true), 8);
}

#[test]
fn the_nearest_pane_in_the_direction_gets_the_focus() {
    let c = |id, primary, ortho, in_dir, overlap| Candidate {
        pane: pane(id),
        primary,
        ortho,
        in_dir,
        overlap,
    };
    let cands = vec![
        c(1, 0, 0, true, true),
        c(2, 9, 0, true, true),
        c(3, 5, 4, true, true),
        c(4, 5, 2, true, true),
        c(5, 1, 0, false, true),
        c(6, 1, 0, true, false),
    ];
    assert_eq!(neighbor_in_rects(&cands, pane(1)), Some(pane(4)));
    assert_eq!(neighbor_in_rects(&vec![c(1, 0, 0, true, true)], pane(1)), None);
}

#[test]
fn words_are_found_around_a_column() {
    assert!(is_word_char('a') && is_word_char('_') && is_word_char('é') && is_word_char('7'));
    assert!(!is_word_char(' '));
    let row: Vec<char> = "git checkout main".chars().collect();
    assert_eq!(word_bounds(&row, 5), (4, 11));
    assert_eq!(word_bounds(&row, 11), (4, 11));
    assert_eq!(word_bounds(&row, 3), (3, 3));
    assert_eq!(word_bounds(&row, 99), (99, 99));
}

#[test]
fn text_for_display_is_scrubbed() {
    assert_eq!(scrub_display_text("plain ünïcode"), "plain ünïcode");
    let dirty = "a\u{202e}b\u{7}c\u{200f}d";
    let clean = scrub_display_text(dirty);
    assert_eq!(clean, "abcd");
    assert_eq!(scrub_display_text(&clean), clean);
}

#[test]
fn links_are_found_by_cell() {
    let links = vec![
        (CellSpan { line: 1, col_start: 2, col_end: 5 }, "https://a.example".to_string()),
        (CellSpan { line: 1, col_start: 7, col_end: 9 }, "https://b.example".to_string()),
    ];
    assert_eq!(link_url_at_cell(&links, 1, 2), Some("https://a.example"));
    assert_eq!(link_url_at_cell(&links, 1, 8), Some("https://b.example"));
    assert_eq!(link_url_at_cell(&links, 1, 5), None);
    assert_eq!(link_url_at_cell(&links, 0, 2), None);
    assert_eq!(link_span_at_cell(&links, 1, 4), Some(links[0].0));
}
