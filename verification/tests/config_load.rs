use c0pl4nd::config_load::{
    apply_forced_colors_auto_theme_with, config_hot_reload, follow_os_theme, load_config_from,
    load_terminal_theme, theme_candidate_paths, ConfigRead, OsTheme, Reload, ReloadRead, ThemeLoad,
    ThemePath, ThemeSource,
};

#[test]
fn absent_config_yields_defaults_with_no_error() {
    let start = load_config_from(ConfigRead::Absent);
    assert!(start.defaults);
    assert!(start.error.is_none(), "an absent config is normal — no error surfaced");
}

#[test]
fn corrupt_config_yields_defaults_with_a_surfaced_error() {
    let said = "Your settings file couldn't be read, so the defaults are used.".to_string();
    let start = load_config_from(ConfigRead::Failed(said.clone()));
    assert!(start.defaults, "falls back to defaults");
    assert_eq!(
        start.error,
        Some(said),
        "a present-but-invalid config MUST surface an error for the toast"
    );
}

#[test]
fn valid_config_parses_with_no_error() {
    let start = load_config_from(ConfigRead::Parsed);
    assert!(!start.defaults);
    assert!(start.error.is_none());
}

#[test]
fn the_accessible_theme_replaces_only_the_shipped_one() {
    let mut theme = "itasha-corp".to_string();
    assert!(apply_forced_colors_auto_theme_with(&mut theme, "itasha-corp", "contrast", true));
    assert_eq!(theme, "contrast");
    let mut own = "mine".to_string();
    assert!(!apply_forced_colors_auto_theme_with(&mut own, "itasha-corp", "contrast", true));
    assert_eq!(own, "mine");
    let mut calm = "itasha-corp".to_string();
    assert!(!apply_forced_colors_auto_theme_with(&mut calm, "itasha-corp", "contrast", false));
    assert_eq!(calm, "itasha-corp");
}

#[test]
fn a_theme_is_looked_for_in_three_places() {
    let file = "neon.toml".to_string();
    let place = |base: Option<&str>, folder: &str| ThemePath {
        base: base.map(|b| b.to_string()),
        folder: folder.to_string(),
        file: file.clone(),
    };
    assert_eq!(
        theme_candidate_paths("neon", &Some("/cfg".to_string()), &Some("/bin".to_string())),
        vec![
            place(Some("/cfg"), "themes"),
            place(None, "assets/themes"),
            place(Some("/bin"), "assets/themes"),
        ]
    );
    assert_eq!(theme_candidate_paths("neon", &None, &None), vec![place(None, "assets/themes")]);
}

#[test]
fn the_first_theme_that_loads_is_used() {
    let loads = vec![
        ThemeLoad::Absent,
        ThemeLoad::Broken("bad".to_string()),
        ThemeLoad::Loaded,
        ThemeLoad::Loaded,
    ];
    assert_eq!(
        load_terminal_theme(&loads, true),
        (ThemeSource::File(2), Some("bad".to_string())),
        "a broken file that was passed over is still told of"
    );
    let later = vec![ThemeLoad::Loaded, ThemeLoad::Broken("bad".to_string())];
    assert_eq!(
        load_terminal_theme(&later, true),
        (ThemeSource::File(0), None),
        "a file that was not looked at is not told of"
    );
    let broken = vec![ThemeLoad::Absent, ThemeLoad::Broken("bad".to_string())];
    assert_eq!(
        load_terminal_theme(&broken, true),
        (ThemeSource::Builtin, Some("bad".to_string()))
    );
    assert_eq!(load_terminal_theme(&vec![], false), (ThemeSource::Fallback, None));
}

#[test]
fn the_theme_follows_the_system_but_a_pick_sticks() {
    let mut last: Option<OsTheme> = None;
    assert_eq!(
        follow_os_theme(&mut last, true, Some(OsTheme::Light), "itasha-corp").as_deref(),
        Some("ghost-paper")
    );
    assert_eq!(follow_os_theme(&mut last, true, Some(OsTheme::Light), "picked"), None);
    assert_eq!(
        follow_os_theme(&mut last, true, None, "picked").as_deref(),
        Some("itasha-corp"),
        "an unknown appearance counts as dark"
    );
    assert_eq!(follow_os_theme(&mut last, false, Some(OsTheme::Light), "picked"), None);
    assert_eq!(last, None);
}

#[test]
fn a_reload_applies_or_is_refused() {
    assert_eq!(config_hot_reload(ReloadRead::Unreadable), Reload::Keep);
    assert_eq!(config_hot_reload(ReloadRead::Same), Reload::Keep);
    assert_eq!(
        config_hot_reload(ReloadRead::Changed { theme_changed: true }),
        Reload::Apply { theme_changed: true, toast: "Reloaded config.toml".to_string() }
    );
}
