//! Everything the shell can be asked to do, and the key chords that ask for it.

use crate::input_forward;
use crate::input_forward::{EventView, InputEvent, KeyInput};
use crate::keys;
use crate::keys::{egui_key_token, Key, Modifiers, KEY_C, KEY_PAGE_DOWN, KEY_PAGE_UP, KEY_X};
use crate::text;
use crate::text::{owned, same_text};
use vstd::prelude::*;

verus! {

/// Everything the shell can be asked to do.
#[derive(Clone, Copy, Debug, PartialEq, Eq, Structural, Hash)]
pub enum Action {
    /// Open a new terminal pane.
    NewTab,
    /// Close the focused pane, never the last one.
    ClosePane,
    /// Move the keyboard focus to the next pane.
    FocusNextPane,
    /// Split the focused pane to the right.
    SplitRight,
    /// Split the focused pane downward.
    SplitDown,
    /// Toggle zoom on the focused pane.
    ZoomPane,
    /// Make all panes the same size.
    EqualizePanes,
    /// Flip between the grid and the tab layout.
    ToggleViewMode,
    /// Toggle the find overlay.
    ToggleSearch,
    /// Toggle the command palette.
    ToggleCommandPalette,
    /// Toggle the command-history sidebar.
    ToggleHistorySidebar,
    /// Toggle the settings window.
    ToggleSettings,
    /// Toggle fullscreen.
    ToggleFullscreen,
    /// Increase the font size.
    IncreaseFont,
    /// Decrease the font size.
    DecreaseFont,
    /// Reset the font size.
    ResetFont,
    /// Clear the focused pane's scrollback.
    ClearScrollback,
    /// Copy the focused pane's whole buffer.
    CopyAll,
    /// Scroll the focused pane to its oldest line.
    ScrollToTop,
    /// Scroll the focused pane to the live output.
    ScrollToBottom,
}

/// How many actions there are.
pub const ACTION_COUNT: usize = 20;

/// Every action, in the order the command palette shows them.
pub open spec fn all_actions() -> Seq<Action> {
    seq![
        Action::NewTab,
        Action::ClosePane,
        Action::FocusNextPane,
        Action::SplitRight,
        Action::SplitDown,
        Action::ZoomPane,
        Action::EqualizePanes,
        Action::ToggleViewMode,
        Action::ToggleSearch,
        Action::ToggleCommandPalette,
        Action::ToggleHistorySidebar,
        Action::ToggleSettings,
        Action::ToggleFullscreen,
        Action::IncreaseFont,
        Action::DecreaseFont,
        Action::ResetFont,
        Action::ClearScrollback,
        Action::CopyAll,
        Action::ScrollToTop,
        Action::ScrollToBottom,
    ]
}

/// The config field an action is bound through.
pub open spec fn binding_text(a: Action) -> Seq<char> {
    match a {
        Action::NewTab => "new_tab"@,
        Action::ClosePane => "close_tab"@,
        Action::FocusNextPane => "next_tab"@,
        Action::SplitRight => "split_right"@,
        Action::SplitDown => "split_down"@,
        Action::ZoomPane => "zoom_pane"@,
        Action::EqualizePanes => "equalize_panes"@,
        Action::ToggleViewMode => "toggle_view_mode"@,
        Action::ToggleSearch => "search"@,
        Action::ToggleCommandPalette => "command_palette"@,
        Action::ToggleHistorySidebar => "history_sidebar"@,
        Action::ToggleSettings => "settings"@,
        Action::ToggleFullscreen => "fullscreen"@,
        Action::IncreaseFont => "increase_font"@,
        Action::DecreaseFont => "decrease_font"@,
        Action::ResetFont => "reset_font"@,
        Action::ClearScrollback => "clear_scrollback"@,
        Action::CopyAll => "copy_all"@,
        Action::ScrollToTop => "scroll_to_top"@,
        Action::ScrollToBottom => "scroll_to_bottom"@,
    }
}

/// The place of an action in the list.
pub open spec fn place_of(a: Action) -> int {
    match a {
        Action::NewTab => 0,
        Action::ClosePane => 1,
        Action::FocusNextPane => 2,
        Action::SplitRight => 3,
        Action::SplitDown => 4,
        Action::ZoomPane => 5,
        Action::EqualizePanes => 6,
        Action::ToggleViewMode => 7,
        Action::ToggleSearch => 8,
        Action::ToggleCommandPalette => 9,
        Action::ToggleHistorySidebar => 10,
        Action::ToggleSettings => 11,
        Action::ToggleFullscreen => 12,
        Action::IncreaseFont => 13,
        Action::DecreaseFont => 14,
        Action::ResetFont => 15,
        Action::ClearScrollback => 16,
        Action::CopyAll => 17,
        Action::ScrollToTop => 18,
        Action::ScrollToBottom => 19,
    }
}

impl Action {
    /// The place of the action in the list.
    pub fn position(self) -> (r: usize)
        ensures
            r == place_of(self),
            r < ACTION_COUNT,
            all_actions()[r as int] == self,
    {
        match self {
            Action::NewTab => 0,
            Action::ClosePane => 1,
            Action::FocusNextPane => 2,
            Action::SplitRight => 3,
            Action::SplitDown => 4,
            Action::ZoomPane => 5,
            Action::EqualizePanes => 6,
            Action::ToggleViewMode => 7,
            Action::ToggleSearch => 8,
            Action::ToggleCommandPalette => 9,
            Action::ToggleHistorySidebar => 10,
            Action::ToggleSettings => 11,
            Action::ToggleFullscreen => 12,
            Action::IncreaseFont => 13,
            Action::DecreaseFont => 14,
            Action::ResetFont => 15,
            Action::ClearScrollback => 16,
            Action::CopyAll => 17,
            Action::ScrollToTop => 18,
            Action::ScrollToBottom => 19,
        }
    }

    /// Every action, in the order the command palette shows them.
    pub fn all() -> (r: Vec<Action>)
        ensures
            r@ == all_actions(),
    {
        vec![
            Action::NewTab,
            Action::ClosePane,
            Action::FocusNextPane,
            Action::SplitRight,
            Action::SplitDown,
            Action::ZoomPane,
            Action::EqualizePanes,
            Action::ToggleViewMode,
            Action::ToggleSearch,
            Action::ToggleCommandPalette,
            Action::ToggleHistorySidebar,
            Action::ToggleSettings,
            Action::ToggleFullscreen,
            Action::IncreaseFont,
            Action::DecreaseFont,
            Action::ResetFont,
            Action::ClearScrollback,
            Action::CopyAll,
            Action::ScrollToTop,
            Action::ScrollToBottom,
        ]
    }

    /// The config field the action is bound through.
    pub fn binding(self) -> (r: &'static str)
        ensures
            r@ == binding_text(self),
    {
        match self {
            Action::NewTab => "new_tab",
            Action::ClosePane => "close_tab",
            Action::FocusNextPane => "next_tab",
            Action::SplitRight => "split_right",
            Action::SplitDown => "split_down",
            Action::ZoomPane => "zoom_pane",
            Action::EqualizePanes => "equalize_panes",
            Action::ToggleViewMode => "toggle_view_mode",
            Action::ToggleSearch => "search",
            Action::ToggleCommandPalette => "command_palette",
            Action::ToggleHistorySidebar => "history_sidebar",
            Action::ToggleSettings => "settings",
            Action::ToggleFullscreen => "fullscreen",
            Action::IncreaseFont => "increase_font",
            Action::DecreaseFont => "decrease_font",
            Action::ResetFont => "reset_font",
            Action::ClearScrollback => "clear_scrollback",
            Action::CopyAll => "copy_all",
            Action::ScrollToTop => "scroll_to_top",
            Action::ScrollToBottom => "scroll_to_bottom",
        }
    }
}

/// The list of actions holds every action, and each once.
pub proof fn the_action_list_is_complete()
    ensures
        all_actions().len() == ACTION_COUNT,
        forall|a: Action| #[trigger] all_actions().contains(a),
        all_actions().no_duplicates(),
{
    assert forall|a: Action| #[trigger] all_actions().contains(a) by {
        assert(all_actions()[place_of(a)] == a);
    }
    assert forall|i: int| 0 <= i < 20 implies place_of(#[trigger] all_actions()[i]) == i by {}
}

/// An action told by the length and the first character of its binding.
spec fn decoded(s: Seq<char>) -> Action {
    if s.len() == 6 {
        Action::ToggleSearch
    } else if s.len() == 7 {
        Action::NewTab
    } else if s.len() == 8 {
        if s[0] == 'n' {
            Action::FocusNextPane
        } else if s[0] == 's' {
            Action::ToggleSettings
        } else {
            Action::CopyAll
        }
    } else if s.len() == 9 {
        if s[0] == 'c' {
            Action::ClosePane
        } else {
            Action::ZoomPane
        }
    } else if s.len() == 10 {
        if s[0] == 's' {
            Action::SplitDown
        } else if s[0] == 'f' {
            Action::ToggleFullscreen
        } else {
            Action::ResetFont
        }
    } else if s.len() == 11 {
        Action::SplitRight
    } else if s.len() == 13 {
        if s[0] == 'i' {
            Action::IncreaseFont
        } else if s[0] == 'd' {
            Action::DecreaseFont
        } else {
            Action::ScrollToTop
        }
    } else if s.len() == 14 {
        Action::EqualizePanes
    } else if s.len() == 15 {
        if s[0] == 'c' {
            Action::ToggleCommandPalette
        } else {
            Action::ToggleHistorySidebar
        }
    } else if s[0] == 't' {
        Action::ToggleViewMode
    } else if s[0] == 'c' {
        Action::ClearScrollback
    } else {
        Action::ScrollToBottom
    }
}

proof fn decodes(a: Action)
    ensures
        decoded(binding_text(a)) == a,
{
    reveal_strlit("new_tab");
    reveal_strlit("close_tab");
    reveal_strlit("next_tab");
    reveal_strlit("split_right");
    reveal_strlit("split_down");
    reveal_strlit("zoom_pane");
    reveal_strlit("equalize_panes");
    reveal_strlit("toggle_view_mode");
    reveal_strlit("search");
    reveal_strlit("command_palette");
    reveal_strlit("history_sidebar");
    reveal_strlit("settings");
    reveal_strlit("fullscreen");
    reveal_strlit("increase_font");
    reveal_strlit("decrease_font");
    reveal_strlit("reset_font");
    reveal_strlit("clear_scrollback");
    reveal_strlit("copy_all");
    reveal_strlit("scroll_to_top");
    reveal_strlit("scroll_to_bottom");
}

/// Two actions never share a config field.
pub proof fn bindings_are_unique(a: Action, b: Action)
    requires
        binding_text(a) == binding_text(b),
    ensures
        a == b,
{
    decodes(a);
    decodes(b);
}

/// A key chord: exact modifiers and a key token.
#[derive(Debug, PartialEq, Eq)]
pub struct Chord {
    pub cmd: bool,
    pub shift: bool,
    pub alt: bool,
    pub key: String,
}

/// A chord, with its token as characters.
pub struct ChordView {
    pub cmd: bool,
    pub shift: bool,
    pub alt: bool,
    pub key: Seq<char>,
}

impl View for Chord {
    type V = ChordView;

    open spec fn view(&self) -> ChordView {
        ChordView { cmd: self.cmd, shift: self.shift, alt: self.alt, key: self.key@ }
    }
}

impl Chord {
    /// Whether a key press is this chord: the same modifiers, no more and no
    /// fewer, and the same key.
    pub fn matches(&self, cmd: bool, shift: bool, alt: bool, token: &str) -> (r: bool)
        ensures
            r == (self@ == ChordView { cmd, shift, alt, key: token@ }),
    {
        self.cmd == cmd && self.shift == shift && self.alt == alt && same_text(
            self.key.as_str(),
            token,
        )
    }

    /// A copy.
    pub fn copy(&self) -> (r: Chord)
        ensures
            r@ == self@,
    {
        Chord { cmd: self.cmd, shift: self.shift, alt: self.alt, key: self.key.clone() }
    }
}

/// The chord modifiers of a modifier snapshot: Ctrl, Command and the Mac
/// Command key all count as the command modifier.
pub open spec fn chord_mods(m: Modifiers) -> (bool, bool, bool) {
    (m.ctrl || m.command || m.mac_cmd, m.shift, m.alt)
}

/// The chord modifiers of a modifier snapshot.
pub fn chord_modifiers(m: &Modifiers) -> (r: (bool, bool, bool))
    ensures
        r == chord_mods(*m),
{
    (m.ctrl || m.command || m.mac_cmd, m.shift, m.alt)
}

/// A table of chords and what they ask for.
pub open spec fn table_view(t: Seq<(Chord, Action)>) -> Seq<(ChordView, Action)> {
    t.map_values(|e: (Chord, Action)| (e.0@, e.1))
}

/// The action of each bound chord, in the order of the actions.
pub open spec fn bound(chords: Seq<Option<Chord>>, n: int) -> Seq<(ChordView, Action)>
    decreases n,
{
    if n <= 0 {
        seq![]
    } else {
        match chords[n - 1] {
            Some(c) => bound(chords, n - 1).push((c@, all_actions()[n - 1])),
            None => bound(chords, n - 1),
        }
    }
}

/// The table of the live bindings. `chords` holds the chord of each action in
/// order, `None` for an action that is not bound; those get no entry.
pub fn keybinding_table(chords: &Vec<Option<Chord>>) -> (r: Vec<(Chord, Action)>)
    requires
        chords@.len() == ACTION_COUNT,
    ensures
        table_view(r@) == bound(chords@, ACTION_COUNT as int),
{
    let all = Action::all();
    let mut out: Vec<(Chord, Action)> = Vec::new();
    let mut i: usize = 0;
    assert(table_view(out@) =~= seq![]);
    while i < ACTION_COUNT
        invariant
            i <= ACTION_COUNT,
            chords@.len() == ACTION_COUNT,
            all@ == all_actions(),
            table_view(out@) == bound(chords@, i as int),
        decreases ACTION_COUNT - i,
    {
        if let Some(c) = &chords[i] {
            let ghost out0 = out@;
            out.push((c.copy(), all[i]));
            assert(table_view(out@) =~= table_view(out0).push((c@, all_actions()[i as int])));
        }
        i += 1;
    }
    out
}

/// The first entry of the table for a chord.
pub open spec fn first_match(t: Seq<(ChordView, Action)>, c: ChordView) -> Option<Action>
    decreases t.len(),
{
    if t.len() == 0 {
        None
    } else {
        match first_match(t.drop_last(), c) {
            Some(a) => Some(a),
            None => if t.last().0 == c {
                Some(t.last().1)
            } else {
                None
            },
        }
    }
}

proof fn first_match_is_first(t: Seq<(ChordView, Action)>, c: ChordView, i: int)
    requires
        0 <= i < t.len(),
        t[i].0 == c,
        forall|j: int| 0 <= j < i ==> (#[trigger] t[j]).0 != c,
    ensures
        first_match(t, c) == Some(t[i].1),
    decreases t.len(),
{
    if i == t.len() - 1 {
        first_match_none(t.drop_last(), c);
    } else {
        first_match_is_first(t.drop_last(), c, i);
    }
}

proof fn first_match_none(t: Seq<(ChordView, Action)>, c: ChordView)
    requires
        forall|j: int| 0 <= j < t.len() ==> (#[trigger] t[j]).0 != c,
    ensures
        first_match(t, c) is None,
    decreases t.len(),
{
    if t.len() > 0 {
        first_match_none(t.drop_last(), c);
    }
}

/// The action of a chord: the first entry of the table that is that chord.
pub fn match_chord(
    table: &Vec<(Chord, Action)>,
    cmd: bool,
    shift: bool,
    alt: bool,
    token: &str,
) -> (r: Option<Action>)
    ensures
        r == first_match(table_view(table@), ChordView { cmd, shift, alt, key: token@ }),
{
    let ghost t = table_view(table@);
    let ghost c = ChordView { cmd, shift, alt, key: token@ };
    let mut i: usize = 0;
    while i < table.len()
        invariant
            i <= table@.len(),
            t == table_view(table@),
            c == (ChordView { cmd, shift, alt, key: token@ }),
            forall|j: int| 0 <= j < i ==> (#[trigger] t[j]).0 != c,
        decreases table@.len() - i,
    {
        assert(t[i as int] == (table@[i as int].0@, table@[i as int].1));
        if table[i].0.matches(cmd, shift, alt, token) {
            proof {
                first_match_is_first(t, c, i as int);
            }
            return Some(table[i].1);
        }
        i += 1;
    }
    proof {
        first_match_none(t, c);
    }
    None
}

/// The action an event asks for: a pressed key that is a bound chord.
pub open spec fn action_of(t: Seq<(ChordView, Action)>, ev: EventView) -> Option<Action> {
    match ev {
        EventView::Key(k) => if k.pressed {
            let m = chord_mods(k.mods);
            first_match(
                t,
                ChordView {
                    cmd: m.0,
                    shift: m.1,
                    alt: m.2,
                    key: keys::token_of(keys::key_name_at(k.key.at())),
                },
            )
        } else {
            None
        },
        _ => None,
    }
}

/// Match a frame's events against the bindings. The first result tells for
/// each event whether it is kept, the second the actions asked for, in the
/// order of the events. A bound chord is never kept, and nothing else is lost.
pub fn dispatch_keybindings(events: &Vec<InputEvent>, table: &Vec<(Chord, Action)>) -> (r: (
    Vec<bool>,
    Vec<Action>,
))
    ensures
        r.0@.len() == events@.len(),
        forall|i: int|
            0 <= i < events@.len() ==> #[trigger] r.0@[i] == (action_of(
                table_view(table@),
                events@[i]@,
            ) is None),
        r.1@ == input_forward::event_views(events@).filter_map(
            |e: EventView| action_of(table_view(table@), e),
        ),
{
    let ghost evs = input_forward::event_views(events@);
    let ghost t = table_view(table@);
    let ghost asks = |e: EventView| action_of(t, e);
    let mut keep: Vec<bool> = Vec::new();
    let mut fired: Vec<Action> = Vec::new();
    let mut i: usize = 0;
    while i < events.len()
        invariant
            i <= events@.len(),
            keep@.len() == i,
            evs == input_forward::event_views(events@),
            t == table_view(table@),
            asks == (|e: EventView| action_of(t, e)),
            forall|j: int|
                0 <= j < i ==> #[trigger] keep@[j] == (action_of(t, events@[j]@) is None),
            fired@ == evs.take(i as int).filter_map(asks),
        decreases events@.len() - i,
    {
        proof {
            evs.lemma_filter_map_take_succ(asks, i as int);
            assert(evs[i as int] == events@[i as int]@);
        }
        let hit = match &events[i] {
            InputEvent::Key(k) => if k.pressed {
                let token = egui_key_token(k.key);
                let (cmd, shift, alt) = chord_modifiers(&k.mods);
                match_chord(table, cmd, shift, alt, token.as_str())
            } else {
                None
            },
            _ => None,
        };
        assert(hit == action_of(t, events@[i as int]@));
        if let Some(a) = hit {
            fired.push(a);
        }
        keep.push(hit.is_none());
        i += 1;
    }
    assert(evs.take(i as int) =~= evs);
    (keep, fired)
}

/// A bound chord fires whatever else is bound behind it, and rebinding an
/// action moves it: a chord that no entry has asks for nothing.
pub proof fn only_bound_chords_fire(t: Seq<(ChordView, Action)>, c: ChordView)
    ensures
        first_match(t, c) is Some <==> exists|i: int| 0 <= i < t.len() && (#[trigger] t[i]).0 == c,
        first_match(t, c) matches Some(a) ==> exists|i: int|
            0 <= i < t.len() && (#[trigger] t[i]).0 == c && t[i].1 == a,
    decreases t.len(),
{
    if t.len() > 0 {
        let s = t.drop_last();
        only_bound_chords_fire(s, c);
        if let Some(a) = first_match(s, c) {
            let i = choose|i: int| 0 <= i < s.len() && (#[trigger] s[i]).0 == c && s[i].1 == a;
            assert(t[i] == s[i]);
        } else if t.last().0 == c {
            assert(t[t.len() - 1].0 == c);
        }
        if exists|i: int| 0 <= i < t.len() && (#[trigger] t[i]).0 == c {
            let i = choose|i: int| 0 <= i < t.len() && (#[trigger] t[i]).0 == c;
            if i < s.len() {
                assert(s[i].0 == c);
            }
        }
    }
}

/// The prompt jump an event asks for: Page Up or Page Down with Ctrl or
/// Command and Shift, without Alt. True jumps forward, to a newer prompt.
pub open spec fn jump_of(ev: EventView) -> Option<bool> {
    match ev {
        EventView::Key(k) => if k.pressed && (k.mods.ctrl || k.mods.command) && k.mods.shift
            && !k.mods.alt {
            if k.key.at() == KEY_PAGE_UP {
                Some(false)
            } else if k.key.at() == KEY_PAGE_DOWN {
                Some(true)
            } else {
                None
            }
        } else {
            None
        },
        _ => None,
    }
}

/// The last prompt jump the events ask for.
pub open spec fn last_jump(evs: Seq<EventView>) -> Option<bool>
    decreases evs.len(),
{
    if evs.len() == 0 {
        None
    } else {
        match jump_of(evs.last()) {
            Some(f) => Some(f),
            None => last_jump(evs.drop_last()),
        }
    }
}

fn jump_key(k: &KeyInput) -> (r: Option<bool>)
    ensures
        r == jump_of(EventView::Key(*k)),
{
    if k.pressed && (k.mods.ctrl || k.mods.command) && k.mods.shift && !k.mods.alt {
        let i: usize = k.key.index();
        if i == KEY_PAGE_UP {
            Some(false)
        } else if i == KEY_PAGE_DOWN {
            Some(true)
        } else {
            None
        }
    } else {
        None
    }
}

/// Take the prompt-jump chords out of a frame's events. The first result tells
/// for each event whether it is kept, the second the jump.
pub fn take_prompt_jump(events: &Vec<InputEvent>) -> (r: (Vec<bool>, Option<bool>))
    ensures
        r.0@.len() == events@.len(),
        forall|i: int|
            0 <= i < events@.len() ==> #[trigger] r.0@[i] == (jump_of(events@[i]@) is None),
        r.1 == last_jump(input_forward::event_views(events@)),
{
    let ghost evs = input_forward::event_views(events@);
    let mut keep: Vec<bool> = Vec::new();
    let mut jump: Option<bool> = None;
    let mut i: usize = 0;
    while i < events.len()
        invariant
            i <= events@.len(),
            keep@.len() == i,
            evs == input_forward::event_views(events@),
            forall|j: int| 0 <= j < i ==> #[trigger] keep@[j] == (jump_of(events@[j]@) is None),
            jump == last_jump(evs.take(i as int)),
        decreases events@.len() - i,
    {
        proof {
            assert(evs.take(i + 1).drop_last() =~= evs.take(i as int));
            assert(evs.take(i + 1).last() == events@[i as int]@);
        }
        let hit = match &events[i] {
            InputEvent::Key(k) => jump_key(k),
            _ => None,
        };
        if hit.is_some() {
            jump = hit;
        }
        keep.push(hit.is_none());
        i += 1;
    }
    assert(evs.take(i as int) =~= evs);
    (keep, jump)
}

/// What becomes of one event in the clipboard pass.
#[derive(Clone, Copy, Debug, PartialEq, Eq, Structural)]
pub enum EventFate {
    /// It stays.
    Keep,
    /// It is taken, and the selection is copied.
    Copy,
    /// It is taken, and the selection is copied and dropped.
    CopyAndClear,
    /// It becomes a press of this key with the frame's modifiers.
    Restore(KeyInput),
}

/// A press of the key at a position of the key list, with these modifiers.
pub open spec fn is_press_of(k: KeyInput, index: usize, mods: Modifiers) -> bool {
    k.key.at() == index && k.pressed && !k.repeat && k.mods == mods
}

/// `f` is what becomes of an event. The copy chord copies with Shift, without
/// Ctrl, or where text is selected (which then drops the selection); else it is
/// the interrupt key. The cut chord is its key with Ctrl, else a copy.
pub open spec fn clipboard_fate(ev: EventView, mods: Modifiers, selected: bool, f: EventFate) -> bool {
    match ev {
        EventView::Copy => if mods.shift || !mods.ctrl {
            f == EventFate::Copy
        } else if selected {
            f == EventFate::CopyAndClear
        } else {
            f matches EventFate::Restore(k) && is_press_of(k, KEY_C, mods)
        },
        EventView::Cut => if mods.ctrl {
            f matches EventFate::Restore(k) && is_press_of(k, KEY_X, mods)
        } else {
            f == EventFate::Copy
        },
        _ => f == EventFate::Keep,
    }
}

/// The key press that the toolkit turned into a clipboard event.
pub fn restored_chord_key(index: usize, mods: Modifiers) -> (r: Option<KeyInput>)
    ensures
        r is Some <==> index < keys::KEY_COUNT,
        r matches Some(k) ==> is_press_of(k, index, mods),
{
    match Key::from_index(index) {
        Some(key) => Some(KeyInput { key, pressed: true, repeat: false, mods }),
        None => None,
    }
}

fn restore(index: usize, mods: Modifiers) -> (r: EventFate)
    requires
        index < keys::KEY_COUNT,
    ensures
        r matches EventFate::Restore(k) && is_press_of(k, index, mods),
{
    match restored_chord_key(index, mods) {
        Some(k) => EventFate::Restore(k),
        None => EventFate::Keep,
    }
}

/// What the clipboard pass found.
#[derive(Debug, PartialEq, Eq)]
pub struct ClipboardPass {
    pub fates: Vec<EventFate>,
    /// The selection is copied.
    pub copy: bool,
    /// The selection is dropped once copied.
    pub clear: bool,
}

/// Resolve the clipboard chords of a frame. `selected` tells whether a
/// non-empty selection of a live pane stands.
pub fn clipboard_chords(events: &Vec<InputEvent>, mods: Modifiers, selected: bool) -> (r: ClipboardPass)
    ensures
        r.fates@.len() == events@.len(),
        forall|i: int|
            0 <= i < events@.len() ==> clipboard_fate(
                events@[i]@,
                mods,
                selected,
                #[trigger] r.fates@[i],
            ),
        r.copy <==> exists|i: int|
            0 <= i < r.fates@.len() && ((#[trigger] r.fates@[i]) is Copy || r.fates@[i] is CopyAndClear),
        r.clear <==> exists|i: int| 0 <= i < r.fates@.len() && (#[trigger] r.fates@[i]) is CopyAndClear,
{
    let mut fates: Vec<EventFate> = Vec::new();
    let mut copy = false;
    let mut clear = false;
    let mut i: usize = 0;
    while i < events.len()
        invariant
            i <= events@.len(),
            fates@.len() == i,
            forall|j: int|
                0 <= j < i ==> clipboard_fate(events@[j]@, mods, selected, #[trigger] fates@[j]),
            copy <==> exists|j: int|
                0 <= j < i && ((#[trigger] fates@[j]) is Copy || fates@[j] is CopyAndClear),
            clear <==> exists|j: int| 0 <= j < i && (#[trigger] fates@[j]) is CopyAndClear,
        decreases events@.len() - i,
    {
        let fate = match &events[i] {
            InputEvent::Copy => if mods.shift || !mods.ctrl {
                EventFate::Copy
            } else if selected {
                EventFate::CopyAndClear
            } else {
                restore(KEY_C, mods)
            },
            InputEvent::Cut => if mods.ctrl {
                restore(KEY_X, mods)
            } else {
                EventFate::Copy
            },
            _ => EventFate::Keep,
        };
        let copies = match fate {
            EventFate::Copy => true,
            EventFate::CopyAndClear => true,
            _ => false,
        };
        let clears = match fate {
            EventFate::CopyAndClear => true,
            _ => false,
        };
        let ghost before = fates@;
        fates.push(fate);
        proof {
            assert forall|j: int| 0 <= j < i implies #[trigger] fates@[j] == before[j] by {}
            assert(fates@[i as int] == fate);
            if copy {
                let j = choose|j: int|
                    0 <= j < i && ((#[trigger] before[j]) is Copy || before[j] is CopyAndClear);
                assert(fates@[j] == before[j]);
            }
            if clear {
                let j = choose|j: int| 0 <= j < i && (#[trigger] before[j]) is CopyAndClear;
                assert(fates@[j] == before[j]);
            }
        }
        if copies {
            copy = true;
        }
        if clears {
            clear = true;
        }
        i += 1;
    }
    ClipboardPass { fates, copy, clear }
}

/// The interrupt key stays reachable: once a plain copy chord has copied and
/// dropped a selection, the next one is the interrupt key.
pub proof fn interrupt_stays_reachable(mods: Modifiers, first: EventFate, second: EventFate)
    requires
        mods.ctrl,
        !mods.shift,
        clipboard_fate(EventView::Copy, mods, true, first),
        clipboard_fate(EventView::Copy, mods, false, second),
    ensures
        first == EventFate::CopyAndClear,
        second matches EventFate::Restore(k) && is_press_of(k, KEY_C, mods),
{
}

/// One row of the command palette.
#[derive(Debug, PartialEq, Eq)]
pub enum PaletteEntry {
    /// One of the shell's own actions.
    Action(Action),
    /// A command that was run before.
    History(String),
}

/// A palette row, with its text as characters.
pub enum EntryView {
    Action(Action),
    History(Seq<char>),
}

impl View for PaletteEntry {
    type V = EntryView;

    open spec fn view(&self) -> EntryView {
        match self {
            PaletteEntry::Action(a) => EntryView::Action(*a),
            PaletteEntry::History(s) => EntryView::History(s@),
        }
    }
}

/// The text of a palette row: an action's label with its chord behind it where
/// it has one, or the command itself.
pub open spec fn row_text(e: EntryView, label: Seq<char>, chord: Option<Seq<char>>) -> Seq<char> {
    match e {
        EntryView::Action(_) => match chord {
            Some(c) => label + "   ("@ + c + ")"@,
            None => label,
        },
        EntryView::History(cmd) => cmd,
    }
}

impl PaletteEntry {
    /// The text of the row. `label` and `chord` are the label and the bound
    /// chord of the row's action.
    pub fn display(&self, label: &str, chord: &Option<String>) -> (r: String)
        ensures
            r@ == row_text(self@, label@, text::opt_text(*chord)),
    {
        match self {
            PaletteEntry::Action(_) => {
                let mut out = owned(label);
                if let Some(c) = chord {
                    out.append("   (");
                    out.append(c.as_str());
                    out.append(")");
                }
                out
            },
            PaletteEntry::History(cmd) => cmd.clone(),
        }
    }

    /// A copy.
    pub fn copy(&self) -> (r: PaletteEntry)
        ensures
            r@ == self@,
    {
        match self {
            PaletteEntry::Action(a) => PaletteEntry::Action(*a),
            PaletteEntry::History(s) => PaletteEntry::History(s.clone()),
        }
    }
}

/// The actions are listed with those for panes first, then the views, the font
/// and the scrollback.
pub proof fn the_actions_come_in_their_order()
    ensures
        all_actions()[0] == Action::NewTab && all_actions()[1] == Action::ClosePane,
        all_actions()[2] == Action::FocusNextPane && all_actions()[3] == Action::SplitRight,
        all_actions()[4] == Action::SplitDown && all_actions()[5] == Action::ZoomPane,
        all_actions()[6] == Action::EqualizePanes && all_actions()[7] == Action::ToggleViewMode,
        all_actions()[8] == Action::ToggleSearch && all_actions()[9]
            == Action::ToggleCommandPalette,
        all_actions()[10] == Action::ToggleHistorySidebar && all_actions()[11]
            == Action::ToggleSettings,
        all_actions()[12] == Action::ToggleFullscreen && all_actions()[13]
            == Action::IncreaseFont,
        all_actions()[14] == Action::DecreaseFont && all_actions()[15] == Action::ResetFont,
        all_actions()[16] == Action::ClearScrollback && all_actions()[17] == Action::CopyAll,
        all_actions()[18] == Action::ScrollToTop && all_actions()[19] == Action::ScrollToBottom,
        forall|a: Action| 0 <= #[trigger] place_of(a) < 20 && all_actions()[place_of(a)] == a,
{
}

/// Each action is bound through the config field that is named after it.
pub proof fn actions_are_bound_by_their_names()
    ensures
        binding_text(Action::NewTab) == "new_tab"@,
        binding_text(Action::ClosePane) == "close_tab"@,
        binding_text(Action::FocusNextPane) == "next_tab"@,
        binding_text(Action::SplitRight) == "split_right"@,
        binding_text(Action::SplitDown) == "split_down"@,
        binding_text(Action::ZoomPane) == "zoom_pane"@,
        binding_text(Action::EqualizePanes) == "equalize_panes"@,
        binding_text(Action::ToggleViewMode) == "toggle_view_mode"@,
        binding_text(Action::ToggleSearch) == "search"@,
        binding_text(Action::ToggleCommandPalette) == "command_palette"@,
        binding_text(Action::ToggleHistorySidebar) == "history_sidebar"@,
        binding_text(Action::ToggleSettings) == "settings"@,
        binding_text(Action::ToggleFullscreen) == "fullscreen"@,
        binding_text(Action::IncreaseFont) == "increase_font"@,
        binding_text(Action::DecreaseFont) == "decrease_font"@,
        binding_text(Action::ResetFont) == "reset_font"@,
        binding_text(Action::ClearScrollback) == "clear_scrollback"@,
        binding_text(Action::CopyAll) == "copy_all"@,
        binding_text(Action::ScrollToTop) == "scroll_to_top"@,
        binding_text(Action::ScrollToBottom) == "scroll_to_bottom"@,
{
}

/// Ctrl, Command and the Mac Command key are one chord modifier; Shift and Alt
/// are each their own.
pub proof fn command_keys_are_one_modifier(m: Modifiers)
    ensures
        m.ctrl ==> chord_mods(m).0,
        m.command ==> chord_mods(m).0,
        m.mac_cmd ==> chord_mods(m).0,
        chord_mods(m).0 ==> m.ctrl || m.command || m.mac_cmd,
        chord_mods(m).1 <==> m.shift,
        chord_mods(m).2 <==> m.alt,
{
}

/// Of two entries for a chord the one in front counts.
pub proof fn the_first_entry_of_a_chord_counts(
    a: Seq<(ChordView, Action)>,
    b: Seq<(ChordView, Action)>,
    c: ChordView,
)
    ensures
        first_match(a, c) is Some ==> first_match(a + b, c) == first_match(a, c),
        first_match(a, c) is None ==> first_match(a + b, c) == first_match(b, c),
    decreases b.len(),
{
    if b.len() == 0 {
        assert(a + b =~= a);
    } else {
        the_first_entry_of_a_chord_counts(a, b.drop_last(), c);
        assert((a + b).drop_last() =~= a + b.drop_last());
        assert((a + b).last() == b.last());
    }
}

/// A table with one entry gives its action for its chord and nothing for any
/// other, be it by a modifier more or fewer or by another key.
pub proof fn a_chord_is_exact(c: ChordView, d: ChordView, a: Action)
    ensures
        first_match(seq![(c, a)], c) == Some(a),
        d.cmd != c.cmd || d.shift != c.shift || d.alt != c.alt || d.key != c.key ==> first_match(
            seq![(c, a)],
            d,
        ) is None,
{
    reveal_with_fuel(first_match, 2);
    assert(seq![(c, a)].drop_last() =~= Seq::empty());
    assert(seq![(c, a)].last() == (c, a));
}

/// An entry binds the chord in the place of its action.
pub open spec fn binds_in_place(
    chords: Seq<Option<Chord>>,
    n: int,
    e: (ChordView, Action),
) -> bool {
    exists|k: int|
        0 <= k < n && (#[trigger] chords[k]) is Some && e.0 == chords[k]->0@ && e.1
            == all_actions()[k]
}

/// The table binds each chord to the action in whose place it stands, and an
/// action that is not bound to none.
pub proof fn each_chord_is_bound_to_its_action(
    chords: Seq<Option<Chord>>,
    n: int,
    e: (ChordView, Action),
)
    requires
        0 <= n <= chords.len(),
        chords.len() == ACTION_COUNT,
    ensures
        bound(chords, n).contains(e) <==> binds_in_place(chords, n, e),
    decreases n,
{
    if n > 0 {
        each_chord_is_bound_to_its_action(chords, n - 1, e);
        let before = bound(chords, n - 1);
        let all = bound(chords, n);
        if binds_in_place(chords, n, e) {
            let k = choose|k: int|
                0 <= k < n && (#[trigger] chords[k]) is Some && e.0 == chords[k]->0@ && e.1
                    == all_actions()[k];
            if k < n - 1 {
                assert(binds_in_place(chords, n - 1, e));
                let i = before.index_of(e);
                assert(all[i] == e);
            } else {
                assert(all[before.len() as int] == e);
            }
        }
        if all.contains(e) {
            let i = all.index_of(e);
            if i < before.len() {
                assert(before[i] == e);
                assert(binds_in_place(chords, n - 1, e));
                let k = choose|k: int|
                    0 <= k < n - 1 && (#[trigger] chords[k]) is Some && e.0 == chords[k]->0@
                        && e.1 == all_actions()[k];
                assert(chords[k] is Some);
            } else {
                assert(chords[n - 1] is Some);
            }
        }
    }
}

/// The table lists the chords of earlier actions before those of later ones.
pub proof fn the_table_follows_the_actions(chords: Seq<Option<Chord>>, n: int)
    requires
        0 <= n < chords.len(),
    ensures
        bound(chords, 0).len() == 0,
        bound(chords, n + 1).take(bound(chords, n).len() as int) == bound(chords, n),
        bound(chords, n).len() <= bound(chords, n + 1).len() <= bound(chords, n).len() + 1,
{
    assert(bound(chords, n + 1).take(bound(chords, n).len() as int) =~= bound(chords, n));
}

/// A key asks for what its chord is bound to when it is pressed, and for nothing
/// when it is let go; no other event asks for an action.
pub proof fn pressed_chords_ask_for_actions(
    t: Seq<(ChordView, Action)>,
    k: KeyInput,
    ev: EventView,
)
    ensures
        k.pressed ==> action_of(t, EventView::Key(k)) == first_match(
            t,
            ChordView {
                cmd: k.mods.ctrl || k.mods.command || k.mods.mac_cmd,
                shift: k.mods.shift,
                alt: k.mods.alt,
                key: keys::token_of(keys::key_name_at(k.key.at())),
            },
        ),
        !k.pressed ==> action_of(t, EventView::Key(k)) is None,
        !(ev is Key) ==> action_of(t, ev) is None,
{
}

/// Page Up with Ctrl or Command and with Shift, without Alt, jumps back to an
/// older prompt, Page Down forward to a newer one; nothing else jumps.
pub proof fn the_page_keys_jump_between_prompts(k: KeyInput, ev: EventView)
    ensures
        k.pressed && (k.mods.ctrl || k.mods.command) && k.mods.shift && !k.mods.alt && k.key.at()
            == KEY_PAGE_UP ==> jump_of(EventView::Key(k)) == Some(false),
        k.pressed && (k.mods.ctrl || k.mods.command) && k.mods.shift && !k.mods.alt && k.key.at()
            == KEY_PAGE_DOWN ==> jump_of(EventView::Key(k)) == Some(true),
        jump_of(ev) is Some ==> (ev matches EventView::Key(e) && e.pressed && e.mods.shift
            && !e.mods.alt && (e.mods.ctrl || e.mods.command) && (e.key.at() == KEY_PAGE_UP
            || e.key.at() == KEY_PAGE_DOWN)),
{
}

/// Of the jumps a frame asks for, the last one counts.
pub proof fn the_last_jump_counts(a: Seq<EventView>, ev: EventView)
    ensures
        last_jump(Seq::<EventView>::empty()) is None,
        jump_of(ev) is Some ==> last_jump(a.push(ev)) == jump_of(ev),
        jump_of(ev) is None ==> last_jump(a.push(ev)) == last_jump(a),
{
    assert(a.push(ev).drop_last() =~= a);
    assert(a.push(ev).last() == ev);
}

/// The copy chord copies with Shift and where Ctrl is not held; with Ctrl alone
/// it copies and drops what is selected, or else interrupts. The cut chord is
/// its own key with Ctrl, and a copy without. Every other event stays.
pub proof fn clipboard_chords_do_as_told(
    ev: EventView,
    mods: Modifiers,
    selected: bool,
    f: EventFate,
)
    requires
        clipboard_fate(ev, mods, selected, f),
    ensures
        ev is Copy && mods.shift ==> f == EventFate::Copy,
        ev is Copy && !mods.ctrl ==> f == EventFate::Copy,
        ev is Copy && mods.ctrl && !mods.shift && selected ==> f == EventFate::CopyAndClear,
        ev is Copy && mods.ctrl && !mods.shift && !selected ==> (f matches EventFate::Restore(k)
            && k.key.at() == 48 && k.pressed && !k.repeat && k.mods == mods),
        ev is Cut && mods.ctrl ==> (f matches EventFate::Restore(k) && k.key.at() == 69
            && k.pressed && !k.repeat && k.mods == mods),
        ev is Cut && !mods.ctrl ==> f == EventFate::Copy,
        !(ev is Copy) && !(ev is Cut) ==> f == EventFate::Keep,
{
}

/// A row of the palette says the action's label, with the chord behind it in
/// brackets where it is bound; a command stands for itself.
pub proof fn rows_say_what_they_run(a: Action, label: Seq<char>, chord: Seq<char>, cmd: Seq<char>)
    ensures
        row_text(EntryView::Action(a), label, None) == label,
        row_text(EntryView::Action(a), label, Some(chord)) == label + seq![' ', ' ', ' ', '(']
            + chord + seq![')'],
        row_text(EntryView::History(cmd), label, Some(chord)) == cmd,
        row_text(EntryView::History(cmd), label, None) == cmd,
{
    reveal_strlit("   (");
    reveal_strlit(")");
    assert("   ("@ =~= seq![' ', ' ', ' ', '(']);
    assert(")"@ =~= seq![')']);
}

} // verus!
