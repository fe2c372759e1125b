use c0pl4nd::grid::{PaneId, SplitDir, MAX_PANES};
use c0pl4nd::grid_interaction::Candidate;
use c0pl4nd::layout::LayoutSnapshot;
use c0pl4nd::panes::{Panes, Shown, SplitOutcome, TermInfo, MAX_CLOSED_TAB_HISTORY};
use c0pl4nd::tree::{close_in_tree, panes_in_visual_order, split_focused, uniform_grid};

fn p(id: u64) -> PaneId {
    PaneId::new(id)
}

/// Open a pane behind the focused one.
fn open(panes: &mut Panes, cwd: Option<&str>) -> SplitOutcome {
    panes.split_in(SplitDir::Horizontal, cwd.map(|d| d.to_string()))
}

fn in_tree(panes: &Panes) -> Vec<u64> {
    let mut ids: Vec<u64> = panes
        .grid_tree
        .tiles
        .tiles()
        .filter_map(|t| match t {
            egui_tiles::Tile::Pane(id) => Some(*id),
            egui_tiles::Tile::Container(_) => None,
        })
        .collect();
    ids.sort();
    ids
}

fn term<'a>(panes: &'a mut Panes, pane: PaneId) -> &'a mut TermInfo {
    panes.terms.iter_mut().find(|t| t.pane == pane).unwrap()
}

#[test]
fn a_session_starts_with_one_pane_that_waits() {
    let panes = Panes::new();
    assert_eq!(panes.all_panes(), vec![p(0)]);
    assert_eq!(panes.focused_pane, p(0));
    assert_eq!(panes.pending_spawn, vec![p(0)]);
    assert!(panes.terms.is_empty());
    assert_eq!(in_tree(&panes), vec![0]);
    assert_eq!(panes.title_for(p(0)), "pane 0");
}

#[test]
fn there_are_never_more_panes_than_fit() {
    let mut panes = Panes::new();
    for n in 1..MAX_PANES as u64 {
        assert_eq!(open(&mut panes, None), SplitOutcome::Opened(p(n)));
        assert_eq!(panes.focused_pane, p(n));
    }
    assert_eq!(panes.order.len(), MAX_PANES);
    assert_eq!(open(&mut panes, None), SplitOutcome::Full);
    assert_eq!(panes.order.len(), MAX_PANES);
    assert_eq!(panes.next_id, MAX_PANES as u64);
    let crowded = egui_tiles::Tree::new_grid("crowded", (0..=MAX_PANES as u64).collect());
    assert!(!panes.rearranged(crowded));
    assert_eq!(panes.order.len(), MAX_PANES);
    assert_eq!(in_tree(&panes), vec![0, 1, 2, 3, 4, 5], "the tree from before stays");
}

#[test]
fn a_drag_takes_the_tree_over_with_its_order() {
    let mut panes = Panes::new();
    open(&mut panes, None);
    let empty = egui_tiles::Tree::empty("none");
    assert!(!panes.rearranged(empty), "a grid without a pane is turned down");
    assert_eq!(panes.all_panes(), vec![p(0), p(1)]);
    let swapped = egui_tiles::Tree::new_horizontal("swapped", vec![1, 0]);
    let root = swapped.root();
    assert!(panes.rearranged(swapped));
    assert_eq!(panes.all_panes(), vec![p(1), p(0)]);
    assert_eq!(panes.grid_tree.root(), root);
    assert_eq!(in_tree(&panes), vec![0, 1]);
}

#[test]
fn only_panes_with_a_terminal_are_listed_as_live() {
    let mut panes = Panes::new();
    assert_eq!(panes.pane_ids(), vec![], "the first pane waits for its size");
    open(&mut panes, None);
    assert_eq!(panes.pane_ids(), vec![p(1)]);
    assert_eq!(panes.all_panes(), vec![p(0), p(1)]);
    let mut startup: Option<String> = None;
    panes.start_pending(p(0), 80, 24, &mut startup);
    assert_eq!(panes.pane_ids(), vec![p(0), p(1)], "in the order of the panes");
    assert_eq!(panes.terms.len(), 2);
    panes.close_pane(p(1));
    assert_eq!(panes.pane_ids(), vec![p(0)]);
}

#[test]
fn a_restored_tab_is_pinned_once() {
    let mut panes = Panes::new();
    panes.apply_layout_snapshot(LayoutSnapshot {
        tree: egui_tiles::Tree::new_grid("t", vec![3, 4]),
        cwds: vec![(p(4), "/four".to_string())],
        focused: p(4),
        pinned: vec![p(3), p(9), p(3)],
        next_id: 0,
    });
    assert_eq!(panes.pinned, vec![p(3)]);
    panes.toggle_pin(p(3));
    assert!(!panes.is_pinned(p(3)));
    assert_eq!(panes.pending_spawn, vec![p(3), p(4)]);
}

#[test]
fn a_refused_split_changes_nothing_but_the_numbers() {
    let mut panes = Panes::new();
    panes.focus_pane(p(7));
    assert_eq!(open(&mut panes, Some("/x")), SplitOutcome::Refused, "no such pane to split");
    assert_eq!(panes.all_panes(), vec![p(0)]);
    assert_eq!(panes.last_spawn_cwd, None);
    assert_eq!(panes.next_id, 2);
}

#[test]
fn closing_a_pane_loses_no_other() {
    let mut panes = Panes::new();
    open(&mut panes, None);
    open(&mut panes, None);
    panes.toggle_pin(p(1));
    panes.focus_pane(p(1));
    panes.toggle_zoom_pane();
    term(&mut panes, p(1)).cwd = Some("/one".to_string());

    assert!(panes.close_pane(p(1)));
    assert_eq!(panes.all_panes(), vec![p(0), p(2)]);
    assert_eq!(in_tree(&panes), vec![0, 2]);
    assert_eq!(panes.focused_pane, p(0), "the focus goes to the first pane");
    assert_eq!(panes.zoomed_pane, None);
    assert!(!panes.is_pinned(p(1)));
    assert!(!panes.has_term(p(1)));
    assert_eq!(panes.closed_tab_cwds, vec![Some("/one".to_string())]);

    assert!(!panes.close_pane(p(1)), "it is gone");
    assert!(panes.close_pane(p(2)));
    assert!(!panes.close_pane(p(0)), "the last pane stays");
    assert_eq!(panes.all_panes(), vec![p(0)]);
    assert_eq!(in_tree(&panes), vec![0]);
}

#[test]
fn a_nested_tree_keeps_its_panes_when_one_closes() {
    let mut tiles: egui_tiles::Tiles<u64> = egui_tiles::Tiles::default();
    let a = tiles.insert_pane(1);
    let b = tiles.insert_pane(2);
    let c = tiles.insert_pane(3);
    let inner = tiles.insert_vertical_tile(vec![b, c]);
    let root = tiles.insert_horizontal_tile(vec![a, inner]);
    let mut tree = egui_tiles::Tree::new("t", root, tiles);
    assert!(!close_in_tree(&mut tree, p(9)));
    assert!(close_in_tree(&mut tree, p(2)));
    assert!(tree.tiles.find_pane(&1).is_some());
    assert!(tree.tiles.find_pane(&3).is_some());
    assert!(tree.tiles.find_pane(&2).is_none());
    assert_eq!(tree.root(), Some(root));
    assert!(tree.tiles.get(inner).is_none(), "the container with one child is collapsed");
}

/// A row of a pane and a column of two, the column first.
fn nested() -> egui_tiles::Tree<u64> {
    let mut tiles: egui_tiles::Tiles<u64> = egui_tiles::Tiles::default();
    let c = tiles.insert_pane(3);
    let b = tiles.insert_pane(2);
    let a = tiles.insert_pane(1);
    let _lost = tiles.insert_pane(9);
    let inner = tiles.insert_vertical_tile(vec![b, c]);
    let root = tiles.insert_horizontal_tile(vec![inner, a]);
    egui_tiles::Tree::new("t", root, tiles)
}

#[test]
fn panes_are_listed_as_the_tree_shows_them() {
    let mut tree = nested();
    assert_eq!(panes_in_visual_order(&tree), vec![p(2), p(3), p(1)], "9 hangs nowhere");
    assert!(close_in_tree(&mut tree, p(2)));
    assert_eq!(panes_in_visual_order(&tree), vec![p(3), p(1)]);
    let empty: egui_tiles::Tree<u64> = egui_tiles::Tree::empty("none");
    assert_eq!(panes_in_visual_order(&empty), vec![]);
    let grid = uniform_grid(&vec![p(5), p(4), p(6)]);
    assert_eq!(panes_in_visual_order(&grid), vec![p(5), p(4), p(6)]);
}

#[test]
fn a_walk_ends_though_the_tree_runs_in_a_circle() {
    let mut tiles: egui_tiles::Tiles<u64> = egui_tiles::Tiles::default();
    let a = tiles.insert_pane(1);
    let root = tiles.insert_horizontal_tile(vec![a]);
    if let Some(egui_tiles::Tile::Container(c)) = tiles.get_mut(root) {
        c.add_child(root);
        c.add_child(egui_tiles::TileId::from_u64(77));
    }
    let tree = egui_tiles::Tree::new("t", root, tiles);
    assert_eq!(panes_in_visual_order(&tree), vec![p(1)]);
}

#[test]
fn a_split_puts_the_new_pane_behind_the_old_one() {
    let mut tree = nested();
    assert!(!split_focused(&mut tree, p(8), p(10), SplitDir::Vertical), "8 is not there");
    assert!(split_focused(&mut tree, p(2), p(10), SplitDir::Horizontal));
    assert_eq!(panes_in_visual_order(&tree), vec![p(2), p(10), p(3), p(1)]);
    assert!(split_focused(&mut tree, p(1), p(11), SplitDir::Vertical));
    assert_eq!(panes_in_visual_order(&tree), vec![p(2), p(10), p(3), p(1), p(11)]);
    let parent = |pane: u64| tree.tiles.parent_of(tree.tiles.find_pane(&pane).unwrap()).unwrap();
    assert_eq!(parent(2), parent(10));
    assert_eq!(parent(1), parent(11));
    assert_eq!(
        tree.tiles.get_container(parent(10)).map(|c| c.kind()),
        Some(egui_tiles::ContainerKind::Horizontal)
    );
    assert_eq!(
        tree.tiles.get_container(parent(11)).map(|c| c.kind()),
        Some(egui_tiles::ContainerKind::Vertical)
    );
}

#[test]
fn a_pane_at_the_top_is_split_too() {
    let mut tiles: egui_tiles::Tiles<u64> = egui_tiles::Tiles::default();
    let only = tiles.insert_pane(4);
    let mut tree = egui_tiles::Tree::new("t", only, tiles);
    assert!(split_focused(&mut tree, p(4), p(5), SplitDir::Horizontal));
    assert_eq!(panes_in_visual_order(&tree), vec![p(4), p(5)]);
    assert!(close_in_tree(&mut tree, p(4)));
    assert_eq!(panes_in_visual_order(&tree), vec![p(5)]);
}

#[test]
fn a_closed_tab_opens_again_where_it_was() {
    let mut panes = Panes::new();
    let dir = SplitDir::Vertical;
    assert_eq!(panes.reopen_closed_tab(dir), None, "nothing was closed");
    open(&mut panes, None);
    term(&mut panes, p(1)).cwd = Some("/one".to_string());
    panes.close_pane(p(1));
    panes.focus_pane(p(7));
    assert_eq!(panes.reopen_closed_tab(dir), Some(SplitOutcome::Refused));
    panes.focus_pane(p(0));
    assert_eq!(panes.closed_tab_cwds.len(), 1, "a tab that did not open is not forgotten");
    assert!(matches!(panes.reopen_closed_tab(dir), Some(SplitOutcome::Opened(_))));
    assert_eq!(panes.last_spawn_cwd.as_deref(), Some("/one"));
    assert!(panes.closed_tab_cwds.is_empty());
}

#[test]
fn only_so_many_closed_tabs_are_remembered() {
    let mut panes = Panes::new();
    for n in 0..(MAX_CLOSED_TAB_HISTORY + 3) {
        panes.push_closed_tab_cwd(Some(n.to_string()));
    }
    assert_eq!(panes.closed_tab_cwds.len(), MAX_CLOSED_TAB_HISTORY);
    assert_eq!(panes.closed_tab_cwds[0].as_deref(), Some("3"), "the oldest went");
}

#[test]
fn moving_on_visits_every_pane() {
    let mut panes = Panes::new();
    panes.focus_next_pane();
    assert_eq!(panes.focused_pane, p(0), "with one pane there is nowhere to go");
    open(&mut panes, None);
    open(&mut panes, None);
    panes.focus_pane(p(0));
    panes.input_line = "half".to_string();
    let mut seen: Vec<u64> = Vec::new();
    for _ in 0..3 {
        panes.focus_next_pane();
        seen.push(panes.focused_pane.raw());
    }
    assert_eq!(seen, vec![1, 2, 0]);
    assert_eq!(panes.input_line, "", "a half-typed line stays behind");
}

#[test]
fn the_focus_moves_in_a_direction() {
    let mut panes = Panes::new();
    open(&mut panes, None);
    panes.input_line = "half".to_string();
    panes.focus_directional(&Vec::new());
    assert_eq!(panes.focused_pane, p(1));
    assert_eq!(panes.input_line, "half");
    let c = Candidate { pane: p(0), primary: 4, ortho: 0, in_dir: true, overlap: true };
    panes.focus_directional(&vec![c]);
    assert_eq!(panes.focused_pane, p(0));
    assert_eq!(panes.input_line, "");
}

#[test]
fn a_zoomed_pane_is_shown_alone_while_it_has_the_focus() {
    let mut panes = Panes::new();
    open(&mut panes, None);
    assert_eq!(panes.shown_panes(false), Shown::All);
    assert_eq!(panes.shown_panes(true), Shown::One(p(1)));
    panes.toggle_zoom_pane();
    assert_eq!(panes.shown_panes(false), Shown::One(p(1)));
    panes.reconcile_zoom();
    assert_eq!(panes.zoomed_pane, Some(p(1)));
    panes.focus_pane(p(0));
    panes.reconcile_zoom();
    assert_eq!(panes.zoomed_pane, None);
    panes.toggle_zoom_pane();
    panes.toggle_zoom_pane();
    assert_eq!(panes.zoomed_pane, None);
}

#[test]
fn tabs_show_titles_and_have_labels_of_their_own() {
    let mut panes = Panes::new();
    open(&mut panes, None);
    open(&mut panes, None);
    term(&mut panes, p(1)).title = Some("vim".to_string());
    term(&mut panes, p(2)).title = Some("vim".to_string());
    assert_eq!(
        panes.pane_titles(),
        vec![
            (p(0), "pane 0".to_string()),
            (p(1), "vim".to_string()),
            (p(2), "vim".to_string())
        ]
    );
    assert_eq!(panes.tab_label_for_pane(p(0)).as_deref(), Some("pane 0"));
    assert_eq!(panes.tab_label_for_pane(p(1)).as_deref(), Some("vim (pane 1)"));
    assert_eq!(panes.tab_label_for_pane(p(2)).as_deref(), Some("vim (pane 2)"));
    assert_eq!(panes.tab_label_for_pane(p(7)), None);
}

#[test]
fn terminals_are_known_by_their_pane() {
    let mut panes = Panes::new();
    open(&mut panes, None);
    assert_eq!(panes.pane_size(p(1)), Some((80, 24)));
    assert_eq!(panes.pane_size(p(0)), None, "it waits");
    term(&mut panes, p(1)).grid_text = Some("$ ".to_string());
    assert_eq!(panes.pane_grid_text(p(1)).as_deref(), Some("$ "));
    assert_eq!(panes.busy_pane_count(), 0);
    term(&mut panes, p(1)).busy = true;
    assert_eq!(panes.busy_pane_count(), 1);
}

#[test]
fn news_of_a_terminal_reaches_its_pane_alone() {
    let mut panes = Panes::new();
    open(&mut panes, None);
    open(&mut panes, None);
    let mut news = TermInfo::started(p(1), 90, 20);
    news.busy = true;
    news.title = Some("make".to_string());
    assert!(panes.note_term(news));
    assert_eq!(panes.pane_size(p(1)), Some((90, 20)));
    assert_eq!(panes.title_for(p(1)), "make");
    assert_eq!(panes.pane_size(p(2)), Some((80, 24)));
    assert_eq!(panes.busy_pane_count(), 1);
    assert!(!panes.note_term(TermInfo::started(p(0), 90, 20)), "it has no terminal yet");
    assert!(!panes.has_term(p(0)));
}

#[test]
fn a_waiting_pane_starts_at_its_size() {
    let mut panes = Panes::new();
    let mut startup = Some("/start".to_string());
    assert_eq!(panes.start_pending(p(5), 1, 1, &mut startup), None);
    assert_eq!(
        panes.start_pending(p(0), 100, 30, &mut startup),
        Some(Some("/start".to_string()))
    );
    assert_eq!(startup, None, "the directory is used once");
    assert_eq!(panes.pane_size(p(0)), Some((100, 30)));
    assert_eq!(panes.start_pending(p(0), 100, 30, &mut startup), None);
}

#[test]
fn a_kept_layout_comes_back() {
    let mut panes = Panes::new();
    open(&mut panes, None);
    open(&mut panes, None);
    panes.toggle_pin(p(2));
    panes.focus_pane(p(1));
    term(&mut panes, p(1)).cwd = Some("/one".to_string());
    let kept = panes.capture_layout();
    assert_eq!(kept.cwds, vec![(p(1), "/one".to_string())]);
    assert_eq!(kept.next_id, 3);

    let mut next = Panes::new();
    next.apply_layout_snapshot(LayoutSnapshot {
        tree: panes.grid_tree.clone(),
        cwds: kept.cwds,
        focused: kept.focused,
        pinned: kept.pinned,
        next_id: kept.next_id,
    });
    assert_eq!(next.all_panes(), panes.all_panes());
    assert_eq!(next.focused_pane, p(1));
    assert!(next.is_pinned(p(2)));
    assert_eq!(next.pending_spawn, panes.all_panes());
    assert_eq!(next.next_id, 3);
    let mut startup: Option<String> = None;
    assert_eq!(
        next.start_pending(p(1), 80, 24, &mut startup),
        Some(Some("/one".to_string()))
    );
}

#[test]
fn a_layout_that_cannot_be_taken_up_changes_nothing() {
    let mut panes = Panes::new();
    let blank = |list: Vec<PaneId>| LayoutSnapshot {
        tree: egui_tiles::Tree::new_grid("t", list.iter().map(|q| q.raw()).collect()),
        cwds: vec![(p(77), "/gone".to_string())],
        focused: p(50),
        pinned: vec![p(60)],
        next_id: 2,
    };
    panes.apply_layout_snapshot(blank(Vec::new()));
    assert_eq!(panes.all_panes(), vec![p(0)]);
    panes.apply_layout_snapshot(blank((10..17).map(p).collect()));
    assert_eq!(panes.all_panes(), vec![p(0)]);
    panes.apply_layout_snapshot(blank(vec![p(10), p(11)]));
    assert_eq!(panes.all_panes(), vec![p(10), p(11)]);
    assert_eq!(panes.focused_pane, p(10), "the pane with the focus is not there any more");
    assert!(panes.pinned.is_empty() && panes.restored_cwds.is_empty());
    assert_eq!(panes.next_id, 12, "past every pane");
}
