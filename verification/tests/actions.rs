use c0pl4nd::actions::{
    chord_modifiers, clipboard_chords, dispatch_keybindings, keybinding_table, restored_chord_key,
    take_prompt_jump, Action, Chord, EventFate, PaletteEntry, ACTION_COUNT,
};
use c0pl4nd::input_forward::{InputEvent, KeyInput};
use c0pl4nd::keys::{
    egui_key_to_logical, egui_key_token, Key, KeyModifiers, LogicalKey, Modifiers, SpecialKey,
    KEY_ARROW_DOWN, KEY_ARROW_LEFT, KEY_ARROW_RIGHT, KEY_ARROW_UP, KEY_BACKSPACE, KEY_C, KEY_COUNT,
    KEY_DELETE, KEY_END, KEY_ENTER, KEY_ESCAPE, KEY_F1, KEY_F12, KEY_F4, KEY_HOME, KEY_INSERT,
    KEY_PAGE_DOWN, KEY_PAGE_UP, KEY_SPACE, KEY_TAB, KEY_X,
};

fn key(k: egui::Key) -> Key {
    let at = egui::Key::ALL.iter().position(|x| *x == k).expect("a key of the list");
    Key::from_index(at).expect("an index of the list")
}

fn press(k: egui::Key, mods: Modifiers) -> InputEvent {
    InputEvent::Key(KeyInput { key: key(k), pressed: true, repeat: false, mods })
}

fn ctrl_shift() -> Modifiers {
    Modifiers { ctrl: true, shift: true, ..Modifiers::none() }
}

fn ctrl() -> Modifiers {
    Modifiers { ctrl: true, ..Modifiers::none() }
}

#[test]
fn actions_and_bindings_are_unique() {
    let mut seen: Vec<&str> = Vec::new();
    for a in Action::all() {
        assert!(!seen.contains(&a.binding()), "duplicate binding {a:?}");
        seen.push(a.binding());
    }
    let mut seen_actions: Vec<Action> = Vec::new();
    for a in Action::all() {
        assert!(!seen_actions.contains(&a), "{a:?} appears twice in the list");
        seen_actions.push(a);
    }
    assert_eq!(seen_actions.len(), ACTION_COUNT);
}

#[test]
fn egui_keys_map_onto_the_config_key_vocabulary() {
    assert_eq!(egui_key_token(key(egui::Key::T)), "t");
    assert_eq!(egui_key_token(key(egui::Key::F11)), "f11");
    assert_eq!(egui_key_token(key(egui::Key::Comma)), "comma");
    assert_eq!(egui_key_token(key(egui::Key::Home)), "home");
    assert_eq!(egui_key_token(key(egui::Key::End)), "end");
    assert_eq!(egui_key_token(key(egui::Key::CloseBracket)), "closebracket");
    assert_eq!(egui_key_token(key(egui::Key::Num0)), "num0");
    assert_eq!(egui_key_token(key(egui::Key::Minus)), "minus");
    assert_eq!(egui_key_token(key(egui::Key::Plus)), "plus");
    assert_eq!(egui_key_token(key(egui::Key::Equals)), "plus");
}

#[test]
fn chord_modifiers_accept_ctrl_command_and_mac_cmd() {
    let ctrl_only = Modifiers { ctrl: true, ..Modifiers::none() };
    assert_eq!(chord_modifiers(&ctrl_only), (true, false, false));
    let mac = Modifiers { mac_cmd: true, command: true, ..Modifiers::none() };
    assert_eq!(chord_modifiers(&mac), (true, false, false));
    let alt_shift = Modifiers { alt: true, shift: true, ..Modifiers::none() };
    assert_eq!(chord_modifiers(&alt_shift), (false, true, true));
}

#[test]
fn the_key_numbers_are_those_of_the_list() {
    assert_eq!(egui::Key::ALL.len(), KEY_COUNT);
    assert!(Key::from_index(KEY_COUNT).is_none());
    for (at, k) in [
        (KEY_ARROW_DOWN, egui::Key::ArrowDown),
        (KEY_ARROW_LEFT, egui::Key::ArrowLeft),
        (KEY_ARROW_RIGHT, egui::Key::ArrowRight),
        (KEY_ARROW_UP, egui::Key::ArrowUp),
        (KEY_ESCAPE, egui::Key::Escape),
        (KEY_TAB, egui::Key::Tab),
        (KEY_BACKSPACE, egui::Key::Backspace),
        (KEY_ENTER, egui::Key::Enter),
        (KEY_INSERT, egui::Key::Insert),
        (KEY_DELETE, egui::Key::Delete),
        (KEY_HOME, egui::Key::Home),
        (KEY_END, egui::Key::End),
        (KEY_PAGE_UP, egui::Key::PageUp),
        (KEY_PAGE_DOWN, egui::Key::PageDown),
        (KEY_SPACE, egui::Key::Space),
        (KEY_C, egui::Key::C),
        (KEY_X, egui::Key::X),
        (KEY_F1, egui::Key::F1),
        (KEY_F4, egui::Key::F4),
        (KEY_F12, egui::Key::F12),
    ] {
        assert_eq!(egui::Key::ALL[at], k);
    }
}

#[test]
fn keys_become_what_the_terminal_is_sent() {
    let none = KeyModifiers { ctrl: false, alt: false, shift: false, logo: false };
    let with_ctrl = KeyModifiers { ctrl: true, ..none };
    assert_eq!(
        egui_key_to_logical(key(egui::Key::Enter), none),
        Some(LogicalKey::Special(SpecialKey::Enter))
    );
    assert_eq!(
        egui_key_to_logical(key(egui::Key::F7), none),
        Some(LogicalKey::Special(SpecialKey::Function(7)))
    );
    assert_eq!(egui_key_to_logical(key(egui::Key::F13), none), None);
    assert_eq!(egui_key_to_logical(key(egui::Key::A), none), None, "text comes as text");
    assert_eq!(
        egui_key_to_logical(key(egui::Key::C), with_ctrl),
        Some(LogicalKey::Text("\u{3}".to_string()))
    );
    assert_eq!(
        egui_key_to_logical(key(egui::Key::Space), with_ctrl),
        Some(LogicalKey::Text("\u{0}".to_string()))
    );
    assert_eq!(egui_key_to_logical(key(egui::Key::Space), none), None);
    assert_eq!(egui_key_to_logical(key(egui::Key::Num1), with_ctrl), None);
    for k in [egui::Key::Comma, egui::Key::Semicolon, egui::Key::Minus, egui::Key::F20] {
        assert_eq!(egui_key_to_logical(key(k), with_ctrl), None, "{k:?} is no letter");
    }
}

fn table() -> Vec<(Chord, Action)> {
    let mut chords: Vec<Option<Chord>> = Vec::new();
    for a in Action::all() {
        chords.push(match a {
            Action::NewTab => Some(Chord {
                cmd: true,
                shift: true,
                alt: false,
                key: "t".to_string(),
            }),
            Action::ToggleFullscreen => Some(Chord {
                cmd: false,
                shift: false,
                alt: false,
                key: "f11".to_string(),
            }),
            _ => None,
        });
    }
    keybinding_table(&chords)
}

#[test]
fn only_bound_chords_fire_and_are_consumed() {
    let t = table();
    assert_eq!(t.len(), 2);
    let events = vec![
        press(egui::Key::T, ctrl_shift()),
        press(egui::Key::T, ctrl()),
        InputEvent::Text("t".to_string()),
        press(egui::Key::F11, Modifiers::none()),
        InputEvent::Key(KeyInput {
            key: key(egui::Key::F11),
            pressed: false,
            repeat: false,
            mods: Modifiers::none(),
        }),
    ];
    let (keep, fired) = dispatch_keybindings(&events, &t);
    assert_eq!(keep, vec![false, true, true, false, true]);
    assert_eq!(fired, vec![Action::NewTab, Action::ToggleFullscreen]);
}

#[test]
fn prompt_jumps_are_taken_out_of_the_input() {
    let events = vec![
        press(egui::Key::PageUp, ctrl_shift()),
        press(egui::Key::PageUp, Modifiers::none()),
        press(egui::Key::PageDown, ctrl_shift()),
    ];
    let (keep, jump) = take_prompt_jump(&events);
    assert_eq!(keep, vec![false, true, false]);
    assert_eq!(jump, Some(true), "the last one decides: forward");
    assert_eq!(take_prompt_jump(&vec![InputEvent::Other]).1, None);
}

#[test]
fn an_interrupt_stays_an_interrupt_without_a_selection() {
    let copy = vec![InputEvent::Copy];
    let pass = clipboard_chords(&copy, ctrl(), false);
    assert!(!pass.copy && !pass.clear);
    assert_eq!(
        pass.fates,
        vec![EventFate::Restore(restored_chord_key(KEY_C, ctrl()).unwrap())]
    );
    let pass = clipboard_chords(&copy, ctrl(), true);
    assert!(pass.copy && pass.clear);
    let pass = clipboard_chords(&copy, ctrl_shift(), false);
    assert!(pass.copy && !pass.clear);
    let cut = vec![InputEvent::Cut];
    let pass = clipboard_chords(&cut, ctrl(), true);
    assert!(!pass.copy);
    assert_eq!(
        pass.fates,
        vec![EventFate::Restore(restored_chord_key(KEY_X, ctrl()).unwrap())]
    );
    assert!(clipboard_chords(&cut, Modifiers::none(), false).copy);
}

#[test]
fn palette_rows_show_the_chord() {
    let action = PaletteEntry::Action(Action::NewTab);
    assert_eq!(
        action.display("New tab", &Some("ctrl+shift+t".to_string())),
        "New tab   (ctrl+shift+t)"
    );
    assert_eq!(action.display("New tab", &None), "New tab");
    assert_eq!(PaletteEntry::History("ls -l".to_string()).display("x", &None), "ls -l");
}
