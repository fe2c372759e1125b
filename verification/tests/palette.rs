use c0pl4nd::actions::{Action, PaletteEntry, ACTION_COUNT};
use c0pl4nd::palette::{
    actions_only_query, empty_palette_hint, empty_sidebar_hint, matching_actions,
    palette_results, CommandHistory, Palette,
};

fn strings(v: &[&str]) -> Vec<String> {
    v.iter().map(|s| s.to_string()).collect()
}

#[test]
fn matches_are_ranked_best_first_and_in_order() {
    let all = Action::all();
    let even: Vec<Option<i32>> = vec![Some(0); ACTION_COUNT];
    assert_eq!(matching_actions(&even), all, "an empty query keeps the order");
    let mut scores: Vec<Option<i32>> = vec![None; ACTION_COUNT];
    scores[3] = Some(5);
    scores[7] = Some(9);
    scores[9] = Some(5);
    scores[12] = Some(-1);
    assert_eq!(matching_actions(&scores), vec![all[7], all[3], all[9], all[12]]);
    assert!(matching_actions(&vec![None; ACTION_COUNT]).is_empty());
}

#[test]
fn a_query_behind_the_sign_asks_for_actions_alone() {
    assert_eq!(actions_only_query("  >  split").as_deref(), Some("split"));
    assert_eq!(actions_only_query(">").as_deref(), Some(""));
    assert_eq!(actions_only_query("split > x"), None);
    assert_eq!(actions_only_query(""), None);
    let hits = strings(&["ls", "git"]);
    let found = vec![Action::NewTab];
    assert_eq!(
        palette_results("g", &hits, &found),
        vec![
            PaletteEntry::History("ls".to_string()),
            PaletteEntry::History("git".to_string()),
            PaletteEntry::Action(Action::NewTab)
        ]
    );
    assert_eq!(
        palette_results("> g", &hits, &found),
        vec![PaletteEntry::Action(Action::NewTab)]
    );
}

#[test]
fn a_command_run_again_moves_to_the_front() {
    let mut h = CommandHistory::new();
    for c in ["ls", "git", "make", "ls"] {
        h.record(c);
    }
    assert_eq!(h.cmds, strings(&["ls", "make", "git"]));
    h.clear();
    assert!(h.cmds.is_empty());
}

#[test]
fn the_selection_stays_within_the_rows() {
    let mut p = Palette::new();
    p.palette_move(1, 3);
    assert_eq!(p.palette_sel, 1);
    p.palette_move(5, 3);
    assert_eq!(p.palette_sel, 2);
    p.palette_move(-9, 3);
    assert_eq!(p.palette_sel, 0);
    p.palette_move(i64::MAX, 3);
    assert_eq!(p.palette_sel, 2);
    p.clamp_selection(2);
    assert_eq!(p.palette_sel, 1);
    p.palette_move(1, 0);
    assert_eq!(p.palette_sel, 0);
}

#[test]
fn the_palette_opens_fresh_and_closes_after_a_run() {
    let mut p = Palette::new();
    p.palette_query = "old".to_string();
    p.palette_sel = 4;
    p.toggle_palette();
    assert!(p.palette_open && p.palette_query.is_empty() && p.palette_sel == 0);
    p.note_run(&Some(PaletteEntry::History("ls".to_string())), "ls");
    assert!(!p.palette_open);
    assert_eq!(p.last_palette_run.as_deref(), Some("ls"));
    assert_eq!(p.cmd_history.cmds, strings(&["ls"]));
    p.note_run(&Some(PaletteEntry::Action(Action::ZoomPane)), "");
    assert_eq!(p.last_palette_run, None);
    assert_eq!(p.last_palette_action, Some(Action::ZoomPane));
}

#[test]
fn the_sidebar_lists_all_or_what_matches() {
    let mut p = Palette::new();
    p.cmd_history.record("ls");
    p.cmd_history.record("git");
    p.history_filter = "  ".to_string();
    assert_eq!(p.history_sidebar_rows(&strings(&["x"])), strings(&["git", "ls"]));
    p.history_filter = "x".to_string();
    assert_eq!(p.history_sidebar_rows(&strings(&["x"])), strings(&["x"]));
    p.toggle_history_sidebar();
    assert!(p.history_open && p.history_filter.is_empty());
    p.note_history_run("ls", "ls");
    assert!(!p.history_open);
    assert_eq!(p.cmd_history.cmds, strings(&["ls", "git"]));
}

#[test]
fn incognito_forgets() {
    let mut p = Palette::new();
    p.cmd_history.record("secret");
    p.set_incognito(true);
    assert!(p.incognito && p.cmd_history.cmds.is_empty());
    p.cmd_history.record("kept");
    p.set_incognito(false);
    assert_eq!(p.cmd_history.cmds, strings(&["kept"]));
}

#[test]
fn empty_lists_say_why() {
    assert_eq!(empty_palette_hint(true), "No matches — type > to list every action.");
    assert_eq!(empty_palette_hint(false), "No matches.");
    assert_eq!(empty_sidebar_hint(true), "No commands run yet.");
    assert_eq!(empty_sidebar_hint(false), "No matches.");
}
