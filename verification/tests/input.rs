use c0pl4nd::grid::Direction;
use c0pl4nd::input_forward::{
    accrue_line, apply_ime, collect_input, should_record_history, InputEvent, KeyEvent,
    KeyEventKind, KeyInput,
};
use c0pl4nd::keys::{Key, KeyModifiers, LogicalKey, Modifiers, SpecialKey, KEY_ARROW_LEFT, KEY_ENTER};

fn input(index: usize, pressed: bool, repeat: bool, mods: Modifiers) -> InputEvent {
    InputEvent::Key(KeyInput { key: Key::from_index(index).unwrap(), pressed, repeat, mods })
}

fn typed(key: LogicalKey, kind: KeyEventKind) -> KeyEvent {
    KeyEvent {
        key,
        mods: KeyModifiers { ctrl: false, alt: false, shift: false, logo: false },
        kind,
    }
}

fn text(s: &str) -> KeyEvent {
    typed(LogicalKey::Text(s.to_string()), KeyEventKind::Press)
}

#[test]
fn input_is_sorted_into_keys_pastes_and_moves() {
    let focus = Modifiers { ctrl: true, shift: true, ..Modifiers::none() };
    let events = vec![
        InputEvent::Text("a".to_string()),
        input(KEY_ENTER, true, false, Modifiers::none()),
        input(KEY_ENTER, true, true, Modifiers::none()),
        input(KEY_ENTER, false, false, Modifiers::none()),
        InputEvent::Paste("p".to_string()),
        InputEvent::ImePreedit("か".to_string()),
        input(KEY_ARROW_LEFT, true, false, focus),
    ];
    let frame = collect_input(&events, Modifiers::none(), false);
    let kinds: Vec<KeyEventKind> = frame.keys.iter().map(|k| k.kind).collect();
    assert_eq!(kinds, vec![KeyEventKind::Press, KeyEventKind::Press, KeyEventKind::Repeat]);
    assert_eq!(frame.keys[1].key, LogicalKey::Special(SpecialKey::Enter));
    assert_eq!(frame.pastes, vec!["p".to_string()]);
    assert_eq!(frame.ime, Some(Some("か".to_string())));
    assert_eq!(frame.focus, Some(Direction::Left));

    let reported = collect_input(&events, Modifiers::none(), true);
    assert_eq!(reported.keys.len(), 4, "a program that asks for releases gets them");
    assert_eq!(reported.keys[3].kind, KeyEventKind::Release);
}

#[test]
fn text_under_a_command_modifier_is_not_typed() {
    let events = vec![InputEvent::Text("c".to_string()), InputEvent::ImeCommit("漢".to_string())];
    let held = Modifiers { ctrl: true, ..Modifiers::none() };
    let frame = collect_input(&events, held, false);
    assert_eq!(frame.keys.len(), 1, "only the committed composition goes through");
    assert_eq!(frame.keys[0].key, LogicalKey::Text("漢".to_string()));
    assert_eq!(frame.ime, Some(None));
}

#[test]
fn a_composition_is_shown_until_it_ends() {
    let mut shown: Option<String> = None;
    apply_ime(&mut shown, &Some(Some("か".to_string())));
    assert_eq!(shown.as_deref(), Some("か"));
    apply_ime(&mut shown, &None);
    assert_eq!(shown.as_deref(), Some("か"));
    apply_ime(&mut shown, &Some(None));
    assert_eq!(shown, None);
}

#[test]
fn the_typed_line_follows_the_keys() {
    let mut line = String::new();
    let done = accrue_line(
        &mut line,
        &vec![
            text("l"),
            text("x"),
            typed(LogicalKey::Special(SpecialKey::Backspace), KeyEventKind::Press),
            text("s"),
            typed(LogicalKey::Special(SpecialKey::Enter), KeyEventKind::Press),
            text("cd"),
            typed(LogicalKey::Special(SpecialKey::Enter), KeyEventKind::Release),
        ],
    );
    assert_eq!(done, vec!["ls".to_string()]);
    assert_eq!(line, "cd");
    assert!(accrue_line(&mut line, &vec![text("\u{3}")]).is_empty());
    assert_eq!(line, "", "an interrupt clears the line");
    let mut kept = "ab".to_string();
    accrue_line(&mut kept, &vec![text("\u{1b}")]);
    assert_eq!(kept, "ab", "other control text leaves it");
}

#[test]
fn only_echoed_lines_are_recorded() {
    let screen = Some("user@host:~$ git status".to_string());
    assert!(should_record_history(true, false, "git status", &screen));
    assert!(!should_record_history(false, false, "git status", &screen));
    assert!(!should_record_history(true, true, "git status", &screen));
    assert!(!should_record_history(true, false, " git status", &screen));
    assert!(!should_record_history(true, false, "\tgit", &screen));
    assert!(!should_record_history(true, false, "   ", &screen));
    assert!(!should_record_history(true, false, "hunter2", &screen), "a password is not echoed");
    assert!(!should_record_history(true, false, "git status", &None));
}
