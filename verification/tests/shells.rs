use c0pl4nd::shells::{
    dropped_text, quote_path_for_shell, spawn_pane_term, ShellProfile, Shells, SpawnPlan,
};

fn profile(label: &str, program: Option<&str>) -> ShellProfile {
    ShellProfile {
        label: label.to_string(),
        program: program.map(|x| x.to_string()),
        args: vec!["-l".to_string()],
    }
}

#[test]
fn a_named_program_keeps_its_arguments_and_its_directory() {
    let plan = spawn_pane_term(
        &Some("zsh".to_string()),
        &vec!["-l".to_string()],
        90,
        30,
        &Some("xterm".to_string()),
        &Some("/d".to_string()),
    );
    assert_eq!(
        plan,
        SpawnPlan::Program {
            program: "zsh".to_string(),
            args: vec!["-l".to_string()],
            cols: 90,
            rows: 30,
            cwd: Some("/d".to_string())
        }
    );
    let term = Some("xterm".to_string());
    assert_eq!(
        spawn_pane_term(&None, &vec![], 90, 30, &term, &Some("/d".to_string())),
        SpawnPlan::ShellIn { cols: 90, rows: 30, term: term.clone(), dir: "/d".to_string() }
    );
    assert_eq!(
        spawn_pane_term(&None, &vec![], 90, 30, &term, &None),
        SpawnPlan::Shell { cols: 90, rows: 30, term }
    );
}

#[test]
fn the_active_shell_is_the_one_chosen() {
    let mut shells = Shells::new(vec![profile("Default", None), profile("Zsh", Some("zsh"))]);
    assert_eq!(shells.active_shell_label(), "Default");
    assert!(!shells.choose_shell(2));
    assert_eq!(shells.active_shell_label(), "Default");
    assert!(shells.choose_shell(1));
    assert_eq!(shells.active_shell_label(), "Zsh");
    assert!(matches!(
        shells.plan_spawn(80, 24, "xterm", &None),
        SpawnPlan::Program { program, .. } if program == "zsh"
    ));
    let none = Shells::new(Vec::new());
    assert_eq!(none.active_shell_label(), "Default shell");
    assert_eq!(
        none.plan_spawn(80, 24, "xterm", &None),
        SpawnPlan::Shell { cols: 80, rows: 24, term: Some("xterm".to_string()) }
    );
}

#[test]
fn paths_are_quoted_for_the_shell() {
    assert_eq!(
        quote_path_for_shell("C:\\a \"b\".ps1", "Windows PowerShell", true),
        "& \"C:\\a `\"b`\".ps1\""
    );
    assert_eq!(quote_path_for_shell("C:\\a b.bat", "cmd", true), "\"C:\\a b.bat\"");
    assert_eq!(quote_path_for_shell("/a b/it's", "bash", false), "'/a b/it'\\''s'");
    assert_eq!(
        dropped_text(&vec!["/a".to_string(), "/b c".to_string()], "bash", false),
        "'/a' '/b c' "
    );
    assert_eq!(dropped_text(&vec![], "bash", false), "");
}
