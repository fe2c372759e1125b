use c0pl4nd::grid::PaneId;
use c0pl4nd::tabs::{cap_tab_title, tab_a11y_label, tab_title, MAX_TAB_TITLE};

#[test]
fn long_titles_are_cut_and_marked() {
    assert_eq!(cap_tab_title("  vim main.rs \n"), "vim main.rs");
    let exact = "x".repeat(MAX_TAB_TITLE);
    assert_eq!(cap_tab_title(&exact), exact);
    let long = "é".repeat(MAX_TAB_TITLE + 1);
    assert_eq!(cap_tab_title(&long), format!("{}…", "é".repeat(MAX_TAB_TITLE)));
    assert_eq!(cap_tab_title("a\u{202e}b\u{7}"), "ab");
}

#[test]
fn two_panes_never_share_a_label() {
    let (a, b) = (PaneId::new(1), PaneId::new(11));
    assert_eq!(tab_title(a, &None), "pane 1");
    assert_eq!(tab_a11y_label(a, "pane 1"), "pane 1");
    assert_eq!(tab_a11y_label(b, "pane 1"), "pane 1 (pane 11)");
    assert_ne!(tab_a11y_label(a, "sh"), tab_a11y_label(b, "sh"));
    assert_eq!(tab_a11y_label(a, ""), " (pane 1)");
}
