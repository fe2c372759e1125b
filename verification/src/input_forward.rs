//! Which input of a frame reaches the focused terminal, and what it leaves
//! behind in the shell.

use crate::grid::Direction;
use crate::keys;
use crate::keys::{
    egui_key_to_logical, Key, KeyModifiers, LogicalKey, LogicalView, Modifiers, SpecialKey,
    KEY_ARROW_DOWN, KEY_ARROW_LEFT, KEY_ARROW_RIGHT, KEY_ARROW_UP,
};
use crate::text;
use crate::text::{chars_of, contains, copy_opt, drop_blank, is_control, skip_blank, string_of};
use vstd::prelude::*;

verus! {

/// A key event.
#[derive(Clone, Copy, Debug, PartialEq, Eq, Structural)]
pub struct KeyInput {
    pub key: Key,
    pub pressed: bool,
    pub repeat: bool,
    pub mods: Modifiers,
}

/// An input event of a frame.
#[derive(Debug, PartialEq, Eq)]
pub enum InputEvent {
    /// Typed text.
    Text(String),
    /// A finished composition.
    ImeCommit(String),
    /// A composition in progress.
    ImePreedit(String),
    /// A composition session began or ended.
    ImeReset,
    /// Pasted text.
    Paste(String),
    /// The copy chord, which the toolkit reports without its key.
    Copy,
    /// The cut chord, which the toolkit reports without its key.
    Cut,
    /// A key.
    Key(KeyInput),
    /// Anything else.
    Other,
}

/// An input event, with its text as characters.
pub enum EventView {
    Text(Seq<char>),
    ImeCommit(Seq<char>),
    ImePreedit(Seq<char>),
    ImeReset,
    Paste(Seq<char>),
    Copy,
    Cut,
    Key(KeyInput),
    Other,
}

impl View for InputEvent {
    type V = EventView;

    open spec fn view(&self) -> EventView {
        match self {
            InputEvent::Text(s) => EventView::Text(s@),
            InputEvent::ImeCommit(s) => EventView::ImeCommit(s@),
            InputEvent::ImePreedit(s) => EventView::ImePreedit(s@),
            InputEvent::ImeReset => EventView::ImeReset,
            InputEvent::Paste(s) => EventView::Paste(s@),
            InputEvent::Copy => EventView::Copy,
            InputEvent::Cut => EventView::Cut,
            InputEvent::Key(k) => EventView::Key(*k),
            InputEvent::Other => EventView::Other,
        }
    }
}

/// The views of a list of events.
pub open spec fn event_views(v: Seq<InputEvent>) -> Seq<EventView> {
    v.map_values(|e: InputEvent| e@)
}

/// What happened to a forwarded key.
#[derive(Clone, Copy, Debug, PartialEq, Eq, Structural)]
pub enum KeyEventKind {
    Press,
    Repeat,
    Release,
}

/// A key on its way to the terminal.
#[derive(Debug, PartialEq, Eq)]
pub struct KeyEvent {
    pub key: LogicalKey,
    pub mods: KeyModifiers,
    pub kind: KeyEventKind,
}

/// A key on its way to the terminal, with its text as characters.
pub struct KeyEventView {
    pub key: LogicalView,
    pub mods: KeyModifiers,
    pub kind: KeyEventKind,
}

impl View for KeyEvent {
    type V = KeyEventView;

    open spec fn view(&self) -> KeyEventView {
        KeyEventView { key: self.key@, mods: self.mods, kind: self.kind }
    }
}

/// The views of a list of key events.
pub open spec fn key_views(v: Seq<KeyEvent>) -> Seq<KeyEventView> {
    v.map_values(|k: KeyEvent| k@)
}

/// What happened to a key.
pub open spec fn kind_of(k: KeyInput) -> KeyEventKind {
    if !k.pressed {
        KeyEventKind::Release
    } else if k.repeat {
        KeyEventKind::Repeat
    } else {
        KeyEventKind::Press
    }
}

/// The direction an arrow key points in.
pub open spec fn arrow(i: int) -> Option<Direction> {
    if i == KEY_ARROW_LEFT {
        Some(Direction::Left)
    } else if i == KEY_ARROW_RIGHT {
        Some(Direction::Right)
    } else if i == KEY_ARROW_UP {
        Some(Direction::Up)
    } else if i == KEY_ARROW_DOWN {
        Some(Direction::Down)
    } else {
        None
    }
}

/// The pane-focus move an event asks for: a pressed arrow with Ctrl or Command
/// and Shift, without Alt.
pub open spec fn focus_move(ev: EventView) -> Option<Direction> {
    match ev {
        EventView::Key(k) => if k.pressed && (k.mods.ctrl || k.mods.command) && k.mods.shift
            && !k.mods.alt {
            arrow(k.key.at())
        } else {
            None
        },
        _ => None,
    }
}

/// What an event sends to the terminal. `mods` are the frame's modifiers and
/// `releases` tells whether the program asked for repeats and releases.
pub open spec fn sent_key(ev: EventView, mods: Modifiers, releases: bool) -> Option<KeyEventView> {
    let m = keys::reported_modifiers(mods);
    match ev {
        EventView::Text(t) => if !m.ctrl && !m.logo {
            Some(KeyEventView { key: LogicalView::Text(t), mods: m, kind: KeyEventKind::Press })
        } else {
            None
        },
        EventView::ImeCommit(t) => if t.len() > 0 {
            Some(KeyEventView { key: LogicalView::Text(t), mods: m, kind: KeyEventKind::Press })
        } else {
            None
        },
        EventView::Key(k) => if (!k.pressed && !releases) || focus_move(ev) is Some {
            None
        } else {
            let own = keys::reported_modifiers(k.mods);
            match keys::logical_key(k.key.at(), own.ctrl) {
                Some(key) => Some(KeyEventView { key, mods: own, kind: kind_of(k) }),
                None => None,
            }
        },
        _ => None,
    }
}

/// The text an event pastes.
pub open spec fn pasted(ev: EventView) -> Option<Seq<char>> {
    match ev {
        EventView::Paste(t) => Some(t),
        _ => None,
    }
}

/// What an event makes of the composition in progress: `Some(None)` ends it,
/// `None` leaves it alone.
pub open spec fn ime_change(ev: EventView) -> Option<Option<Seq<char>>> {
    match ev {
        EventView::ImeCommit(_) => Some(None),
        EventView::ImeReset => Some(None),
        EventView::ImePreedit(t) => if t.len() == 0 {
            Some(None)
        } else {
            Some(Some(t))
        },
        _ => None,
    }
}

/// The last change the events make to the composition.
pub open spec fn last_ime_change(evs: Seq<EventView>) -> Option<Option<Seq<char>>>
    decreases evs.len(),
{
    if evs.len() == 0 {
        None
    } else {
        match ime_change(evs.last()) {
            Some(c) => Some(c),
            None => last_ime_change(evs.drop_last()),
        }
    }
}

/// The last pane-focus move the events ask for. A release that is not reported
/// asks for nothing.
pub open spec fn last_focus_move(evs: Seq<EventView>) -> Option<Direction>
    decreases evs.len(),
{
    if evs.len() == 0 {
        None
    } else {
        match focus_move(evs.last()) {
            Some(d) => Some(d),
            None => last_focus_move(evs.drop_last()),
        }
    }
}

/// What a frame of input asks for.
#[derive(Debug, PartialEq, Eq)]
pub struct InputFrame {
    /// The keys for the focused terminal, in order.
    pub keys: Vec<KeyEvent>,
    /// The pasted texts, in order.
    pub pastes: Vec<String>,
    /// The change to the composition in progress.
    pub ime: Option<Option<String>>,
    /// The pane-focus move.
    pub focus: Option<Direction>,
}

/// The text of a change to the composition.
pub open spec fn ime_text(o: Option<Option<String>>) -> Option<Option<Seq<char>>> {
    match o {
        Some(t) => Some(text::opt_text(t)),
        None => None,
    }
}

fn arrow_of(k: &KeyInput) -> (r: Option<Direction>)
    ensures
        r == arrow(k.key.at()),
{
    let i: usize = k.key.index();
    if i == KEY_ARROW_LEFT {
        Some(Direction::Left)
    } else if i == KEY_ARROW_RIGHT {
        Some(Direction::Right)
    } else if i == KEY_ARROW_UP {
        Some(Direction::Up)
    } else if i == KEY_ARROW_DOWN {
        Some(Direction::Down)
    } else {
        None
    }
}

fn focus_move_of(k: &KeyInput) -> (r: Option<Direction>)
    ensures
        r == focus_move(EventView::Key(*k)),
{
    if k.pressed && (k.mods.ctrl || k.mods.command) && k.mods.shift && !k.mods.alt {
        arrow_of(k)
    } else {
        None
    }
}

fn key_of(k: &KeyInput, releases: bool) -> (r: Option<KeyEvent>)
    ensures
        forall|mods: Modifiers| #[trigger]
            sent_key(EventView::Key(*k), mods, releases) == (match r {
                Some(e) => Some(e@),
                None => None,
            }),
{
    if !k.pressed && !releases {
        return None;
    }
    if focus_move_of(k).is_some() {
        return None;
    }
    let kind = if !k.pressed {
        KeyEventKind::Release
    } else if k.repeat {
        KeyEventKind::Repeat
    } else {
        KeyEventKind::Press
    };
    let own = k.mods.reported();
    match egui_key_to_logical(k.key, own) {
        Some(key) => Some(KeyEvent { key, mods: own, kind }),
        None => None,
    }
}

/// Sort a frame's input: what goes to the focused terminal, what was pasted,
/// what becomes of the composition, and whether the focus moves to another
/// pane.
pub fn collect_input(events: &Vec<InputEvent>, mods: Modifiers, releases: bool) -> (r: InputFrame)
    ensures
        key_views(r.keys@) == event_views(events@).filter_map(
            |e: EventView| sent_key(e, mods, releases),
        ),
        text::texts(r.pastes@) == event_views(events@).filter_map(|e: EventView| pasted(e)),
        ime_text(r.ime) == last_ime_change(event_views(events@)),
        r.focus == last_focus_move(event_views(events@)),
{
    let ghost evs = event_views(events@);
    let ghost send = |e: EventView| sent_key(e, mods, releases);
    let ghost paste = |e: EventView| pasted(e);
    let m = mods.reported();
    let mut keys: Vec<KeyEvent> = Vec::new();
    let mut pastes: Vec<String> = Vec::new();
    let mut ime: Option<Option<String>> = None;
    let mut focus: Option<Direction> = None;
    let mut i: usize = 0;
    while i < events.len()
        invariant
            i <= events@.len(),
            evs == event_views(events@),
            send == (|e: EventView| sent_key(e, mods, releases)),
            paste == (|e: EventView| pasted(e)),
            m == keys::reported_modifiers(mods),
            key_views(keys@) == evs.take(i as int).filter_map(send),
            text::texts(pastes@) == evs.take(i as int).filter_map(paste),
            ime_text(ime) == last_ime_change(evs.take(i as int)),
            focus == last_focus_move(evs.take(i as int)),
        decreases events@.len() - i,
    {
        proof {
            evs.lemma_filter_map_take_succ(send, i as int);
            evs.lemma_filter_map_take_succ(paste, i as int);
            assert(evs.take(i + 1).drop_last() =~= evs.take(i as int));
            assert(evs.take(i + 1).last() == evs[i as int]);
            assert(evs[i as int] == events@[i as int]@);
        }
        let ghost keys0 = keys@;
        let ghost pastes0 = pastes@;
        match &events[i] {
            InputEvent::Text(t) => {
                if !m.ctrl && !m.logo {
                    keys.push(
                        KeyEvent {
                            key: LogicalKey::Text(t.clone()),
                            mods: m,
                            kind: KeyEventKind::Press,
                        },
                    );
                }
            },
            InputEvent::ImeCommit(t) => {
                if !t.as_str().is_empty() {
                    keys.push(
                        KeyEvent {
                            key: LogicalKey::Text(t.clone()),
                            mods: m,
                            kind: KeyEventKind::Press,
                        },
                    );
                }
                ime = Some(None);
            },
            InputEvent::ImePreedit(t) => {
                if t.as_str().is_empty() {
                    ime = Some(None);
                } else {
                    ime = Some(Some(t.clone()));
                }
            },
            InputEvent::ImeReset => {
                ime = Some(None);
            },
            InputEvent::Paste(t) => {
                pastes.push(t.clone());
            },
            InputEvent::Key(k) => {
                let moved = focus_move_of(k);
                if moved.is_some() {
                    focus = moved;
                }
                if let Some(e) = key_of(k, releases) {
                    keys.push(e);
                }
                assert(send(evs[i as int]) == sent_key(EventView::Key(*k), mods, releases));
            },
            InputEvent::Copy => {},
            InputEvent::Cut => {},
            InputEvent::Other => {},
        }
        proof {
            assert(key_views(keys@) =~= key_views(keys0) + (match send(evs[i as int]) {
                Some(s) => seq![s],
                None => Seq::empty(),
            }));
            assert(text::texts(pastes@) =~= text::texts(pastes0) + (match paste(evs[i as int]) {
                Some(s) => seq![s],
                None => Seq::empty(),
            }));
        }
        i += 1;
    }
    assert(evs.take(i as int) =~= evs);
    InputFrame { keys, pastes, ime, focus }
}

/// Composition text that is not committed never reaches the terminal, and
/// ends as the composition being shown.
pub proof fn preedit_is_display_only(t: Seq<char>, mods: Modifiers, releases: bool)
    ensures
        sent_key(EventView::ImePreedit(t), mods, releases) is None,
        t.len() > 0 ==> ime_change(EventView::ImePreedit(t)) == Some(Some(t)),
{
}

/// A committed composition reaches the terminal whatever modifiers are held,
/// and ends the composition.
pub proof fn commit_always_reaches_the_terminal(t: Seq<char>, mods: Modifiers, releases: bool)
    requires
        t.len() > 0,
    ensures
        sent_key(EventView::ImeCommit(t), mods, releases) matches Some(k) && k.key
            == LogicalView::Text(t),
        ime_change(EventView::ImeCommit(t)) == Some(None::<Seq<char>>),
{
}

/// An arrow that moves the focus between panes is not also sent, and a key's
/// release is sent only where the program asked for releases.
pub proof fn focus_arrows_and_releases_stay_out(k: KeyInput, mods: Modifiers)
    ensures
        focus_move(EventView::Key(k)) is Some ==> sent_key(EventView::Key(k), mods, true) is None,
        !k.pressed ==> sent_key(EventView::Key(k), mods, false) is None && focus_move(
            EventView::Key(k),
        ) is None,
{
}

/// The composition shown after a frame.
pub open spec fn preedit_after(
    shown: Option<Seq<char>>,
    change: Option<Option<Seq<char>>>,
) -> Option<Seq<char>> {
    match change {
        Some(p) => p,
        None => shown,
    }
}

/// Apply a frame's change to the composition shown.
pub fn apply_ime(shown: &mut Option<String>, change: &Option<Option<String>>)
    ensures
        text::opt_text(*final(shown)) == preedit_after(text::opt_text(*old(shown)), ime_text(*change)),
{
    if let Some(p) = change {
        *shown = copy_opt(p);
    }
}

/// Every character of a text is printable.
pub open spec fn printable(t: Seq<char>) -> bool {
    forall|i: int| 0 <= i < t.len() ==> !text::control(#[trigger] t[i])
}

/// The line being typed, and the lines committed so far.
pub struct Typing {
    pub line: Seq<char>,
    pub done: Seq<Seq<char>>,
}

/// One key's effect on the line being typed: printable text is appended, the
/// interrupt and kill characters clear it, Backspace takes its last character,
/// Enter commits it. Releases and other keys do nothing.
pub open spec fn typed_key(s: Typing, k: KeyEventView) -> Typing {
    if k.kind == KeyEventKind::Release {
        s
    } else {
        match k.key {
            LogicalView::Text(t) => if printable(t) {
                Typing { line: s.line + t, ..s }
            } else if t == seq!['\u{3}'] || t == seq!['\u{15}'] {
                Typing { line: seq![], ..s }
            } else {
                s
            },
            LogicalView::Special(SpecialKey::Backspace) => Typing {
                line: if s.line.len() > 0 {
                    s.line.drop_last()
                } else {
                    s.line
                },
                ..s
            },
            LogicalView::Special(SpecialKey::Enter) => Typing {
                line: seq![],
                done: s.done.push(s.line),
            },
            _ => s,
        }
    }
}

/// The effect of a list of keys on the line being typed.
pub open spec fn typed(s: Typing, ks: Seq<KeyEventView>) -> Typing
    decreases ks.len(),
{
    if ks.len() == 0 {
        s
    } else {
        typed_key(typed(s, ks.drop_last()), ks.last())
    }
}

fn is_printable(cs: &Vec<char>) -> (r: bool)
    ensures
        r == printable(cs@),
{
    let mut i: usize = 0;
    while i < cs.len()
        invariant
            i <= cs@.len(),
            forall|j: int| 0 <= j < i ==> !text::control(#[trigger] cs@[j]),
        decreases cs@.len() - i,
    {
        if is_control(cs[i]) {
            return false;
        }
        i += 1;
    }
    true
}

/// Follow the line being typed through a frame's keys. The result is the lines
/// that Enter committed, in order.
pub fn accrue_line(line: &mut String, keys: &Vec<KeyEvent>) -> (done: Vec<String>)
    ensures
        ({
            let t = typed(Typing { line: old(line)@, done: seq![] }, key_views(keys@));
            &&& final(line)@ == t.line
            &&& text::texts(done@) == t.done
        }),
{
    let ghost ks = key_views(keys@);
    let ghost start = Typing { line: line@, done: seq![] };
    let mut done: Vec<String> = Vec::new();
    let mut i: usize = 0;
    assert(text::texts(done@) =~= seq![]);
    while i < keys.len()
        invariant
            i <= keys@.len(),
            ks == key_views(keys@),
            line@ == typed(start, ks.take(i as int)).line,
            text::texts(done@) == typed(start, ks.take(i as int)).done,
        decreases keys@.len() - i,
    {
        proof {
            assert(ks.take(i + 1).drop_last() =~= ks.take(i as int));
            assert(ks.take(i + 1).last() == ks[i as int]);
            assert(ks[i as int] == keys@[i as int]@);
        }
        let k = &keys[i];
        if k.kind != KeyEventKind::Release {
            match &k.key {
                LogicalKey::Text(t) => {
                    let cs = chars_of(t.as_str());
                    if is_printable(&cs) {
                        line.append(t.as_str());
                    } else if cs.len() == 1 && (cs[0] == '\u{3}' || cs[0] == '\u{15}') {
                        assert(t@ =~= seq![cs@[0]]);
                        *line = String::new();
                    } else {
                        assert(t@ != seq!['\u{3}'] && t@ != seq!['\u{15}']) by {
                            if t@ == seq!['\u{3}'] {
                                assert(t@.len() == 1 && t@[0] == '\u{3}');
                            }
                            if t@ == seq!['\u{15}'] {
                                assert(t@.len() == 1 && t@[0] == '\u{15}');
                            }
                        }
                    }
                },
                LogicalKey::Special(s) => {
                    if *s == SpecialKey::Backspace {
                        line.pop();
                    } else if *s == SpecialKey::Enter {
                        let ghost done0 = done@;
                        done.push(line.clone());
                        *line = String::new();
                        assert(text::texts(done@) =~= text::texts(done0).push(
                            typed(start, ks.take(i as int)).line,
                        ));
                    }
                },
            }
        }
        i += 1;
    }
    assert(ks.take(i as int) =~= ks);
    done
}

/// How many characters of a line must have been echoed for it to be recorded.
pub const PROBE_LEN: usize = 4;

/// The part of a line that must have been echoed: the first characters of the
/// trimmed line.
pub open spec fn probe(line: Seq<char>) -> Seq<char> {
    let t = text::trimmed(line);
    t.take(if t.len() <= PROBE_LEN {
        t.len() as int
    } else {
        PROBE_LEN as int
    })
}

/// A typed line may be recorded: capture is on, the session is not incognito,
/// the line is not blank and does not start with a space or tab, and its start
/// was echoed on the screen.
pub open spec fn recordable(
    capture: bool,
    incognito: bool,
    line: Seq<char>,
    screen: Option<Seq<char>>,
) -> bool {
    &&& capture
    &&& !incognito
    &&& text::trimmed(line).len() > 0
    &&& line[0] != ' '
    &&& line[0] != '\t'
    &&& screen matches Some(s) && text::has_part(s, probe(line))
}

/// Whether a typed line may be recorded in the command history. `screen` is
/// the focused pane's visible text, where it has a terminal.
pub fn should_record_history(
    capture: bool,
    incognito: bool,
    line: &str,
    screen: &Option<String>,
) -> (r: bool)
    ensures
        r == recordable(capture, incognito, line@, text::opt_text(*screen)),
{
    if !capture || incognito {
        return false;
    }
    let cs = chars_of(line);
    let from = skip_blank(&cs);
    let to = drop_blank(&cs, from);
    assert(cs@.subrange(from as int, to as int) == text::trimmed(line@));
    if from == to {
        return false;
    }
    if cs[0] == ' ' || cs[0] == '\t' {
        return false;
    }
    let end: usize = if to - from <= PROBE_LEN {
        to
    } else {
        from + PROBE_LEN
    };
    let start = string_of(&cs, from, end);
    assert(start@ =~= probe(line@));
    match screen {
        Some(s) => contains(s.as_str(), start.as_str()),
        None => false,
    }
}

/// A line that was typed without any echo, as at a password prompt, is never
/// recorded; nor is one typed with a leading space.
pub proof fn unechoed_lines_are_never_recorded(
    capture: bool,
    incognito: bool,
    line: Seq<char>,
    screen: Option<Seq<char>>,
)
    requires
        (screen matches Some(s) ==> !text::has_part(s, probe(line))) || (line.len() > 0 && (line[0]
            == ' ' || line[0] == '\t')),
    ensures
        !recordable(capture, incognito, line, screen),
{
}

/// A pressed arrow with Ctrl or Command and with Shift, without Alt, asks for
/// the direction it is named after; any other key asks for none.
pub proof fn arrows_move_the_focus_their_way(k: KeyInput)
    requires
        k.pressed,
        k.mods.ctrl || k.mods.command,
        k.mods.shift,
        !k.mods.alt,
    ensures
        k.key.at() == KEY_ARROW_UP ==> focus_move(EventView::Key(k)) == Some(Direction::Up),
        k.key.at() == KEY_ARROW_DOWN ==> focus_move(EventView::Key(k)) == Some(Direction::Down),
        k.key.at() == KEY_ARROW_LEFT ==> focus_move(EventView::Key(k)) == Some(Direction::Left),
        k.key.at() == KEY_ARROW_RIGHT ==> focus_move(EventView::Key(k)) == Some(Direction::Right),
        !(0 <= k.key.at() <= 3) ==> focus_move(EventView::Key(k)) is None,
{
}

/// Only such a chord moves the focus: not a release, not an arrow without Shift
/// or with Alt, nor one without Ctrl and Command, and no other event.
pub proof fn nothing_else_moves_the_focus(ev: EventView)
    requires
        focus_move(ev) is Some,
    ensures
        ev matches EventView::Key(k) && k.pressed && k.mods.shift && !k.mods.alt && (k.mods.ctrl
            || k.mods.command) && 0 <= k.key.at() <= 3,
{
}

/// Of the moves a frame asks for, the last one counts.
pub proof fn the_last_move_counts(a: Seq<EventView>, b: Seq<EventView>, ev: EventView)
    ensures
        last_focus_move(Seq::<EventView>::empty()) is None,
        focus_move(ev) is Some ==> last_focus_move(a.push(ev)) == focus_move(ev),
        focus_move(ev) is None ==> last_focus_move(a.push(ev)) == last_focus_move(a),
        last_focus_move(b) is Some ==> last_focus_move(a + b) == last_focus_move(b),
        last_focus_move(b) is None ==> last_focus_move(a + b) == last_focus_move(a),
    decreases b.len(),
{
    assert(a.push(ev).drop_last() =~= a);
    if b.len() == 0 {
        assert(a + b =~= a);
    } else {
        the_last_move_counts(a, b.drop_last(), ev);
        assert((a + b).drop_last() =~= a + b.drop_last());
        assert((a + b).last() == b.last());
    }
}

/// Of the changes a frame makes to the composition, the last one counts.
pub proof fn the_last_change_counts(a: Seq<EventView>, b: Seq<EventView>, ev: EventView)
    ensures
        last_ime_change(Seq::<EventView>::empty()) is None,
        ime_change(ev) is Some ==> last_ime_change(a.push(ev)) == ime_change(ev),
        ime_change(ev) is None ==> last_ime_change(a.push(ev)) == last_ime_change(a),
        last_ime_change(b) is Some ==> last_ime_change(a + b) == last_ime_change(b),
        last_ime_change(b) is None ==> last_ime_change(a + b) == last_ime_change(a),
    decreases b.len(),
{
    assert(a.push(ev).drop_last() =~= a);
    if b.len() == 0 {
        assert(a + b =~= a);
    } else {
        the_last_change_counts(a, b.drop_last(), ev);
        assert((a + b).drop_last() =~= a + b.drop_last());
        assert((a + b).last() == b.last());
    }
}

/// Typed text is sent as it is, as a press, with the frame's modifiers, unless
/// Ctrl or a command key is held: then it belongs to a chord.
pub proof fn typed_text_is_sent_as_it_is(t: Seq<char>, mods: Modifiers, releases: bool)
    ensures
        mods.ctrl || mods.command || mods.mac_cmd ==> sent_key(
            EventView::Text(t),
            mods,
            releases,
        ) is None,
        !(mods.ctrl || mods.command || mods.mac_cmd) ==> (sent_key(
            EventView::Text(t),
            mods,
            releases,
        ) matches Some(k) && k.key == LogicalView::Text(t) && k.kind == KeyEventKind::Press
            && k.mods.alt == mods.alt && k.mods.shift == mods.shift && !k.mods.ctrl
            && !k.mods.logo),
        t.len() == 0 ==> sent_key(EventView::ImeCommit(t), mods, releases) is None,
        t.len() > 0 ==> (sent_key(EventView::ImeCommit(t), mods, releases) matches Some(k) && k.kind
            == KeyEventKind::Press && k.mods.alt == mods.alt && k.mods.shift == mods.shift
            && k.mods.ctrl == mods.ctrl && k.mods.logo == (mods.command || mods.mac_cmd)),
{
}

/// A key is sent with its own modifiers and as what happened to it: pressed,
/// held, or let go, which is told only where the program asked. A key without a
/// meaning is not sent, and one that moves the focus is not.
pub proof fn keys_are_sent_as_what_happened(k: KeyInput, mods: Modifiers, releases: bool)
    ensures
        ({
            let sent = sent_key(EventView::Key(k), mods, releases);
            &&& sent matches Some(e) ==> {
                &&& Some(e.key) == keys::logical_key(k.key.at(), k.mods.ctrl)
                &&& e.mods.ctrl == k.mods.ctrl && e.mods.alt == k.mods.alt && e.mods.shift
                    == k.mods.shift
                &&& e.mods.logo == (k.mods.command || k.mods.mac_cmd)
                &&& e.kind == KeyEventKind::Release <==> !k.pressed
                &&& e.kind == KeyEventKind::Repeat <==> k.pressed && k.repeat
                &&& e.kind == KeyEventKind::Press <==> k.pressed && !k.repeat
            }
            &&& sent is Some <==> {
                &&& keys::logical_key(k.key.at(), k.mods.ctrl) is Some
                &&& k.pressed || releases
                &&& focus_move(EventView::Key(k)) is None
            }
        }),
{
}

/// What is pasted, copied, cut or composed is not sent as a key, and neither is
/// anything else.
pub proof fn only_text_and_keys_are_sent(ev: EventView, mods: Modifiers, releases: bool)
    requires
        !(ev is Text),
        !(ev is ImeCommit),
        !(ev is Key),
    ensures
        sent_key(ev, mods, releases) is None,
{
}

/// A paste is pasted as it is, and nothing else is.
pub proof fn only_pastes_are_pasted(ev: EventView, t: Seq<char>)
    ensures
        pasted(EventView::Paste(t)) == Some(t),
        !(ev is Paste) ==> pasted(ev) is None,
{
}

/// A composition changes by its own events only: its text is shown as it grows,
/// and empty text, a commit and a reset end it.
pub proof fn compositions_change_by_their_own_events(ev: EventView, t: Seq<char>)
    ensures
        ime_change(EventView::ImeReset) == Some(None::<Seq<char>>),
        ime_change(EventView::ImeCommit(t)) == Some(None::<Seq<char>>),
        t.len() == 0 ==> ime_change(EventView::ImePreedit(t)) == Some(None::<Seq<char>>),
        t.len() > 0 ==> ime_change(EventView::ImePreedit(t)) == Some(Some(t)),
        !(ev is ImeReset) && !(ev is ImeCommit) && !(ev is ImePreedit) ==> ime_change(ev) is None,
{
}

/// The composition stays as it is shown until something changes it.
pub proof fn a_composition_stays_until_changed(shown: Option<Seq<char>>, p: Option<Seq<char>>)
    ensures
        preedit_after(shown, None) == shown,
        preedit_after(shown, Some(p)) == p,
{
}

/// Typing a line: printable text is appended, Backspace takes its last character
/// again, Enter commits the line and starts an empty one, and the interrupt and
/// kill characters throw it away.
pub proof fn a_line_is_typed_key_by_key(s: Typing, k: KeyEventView, c: char)
    requires
        k.kind != KeyEventKind::Release,
    ensures
        k.key == LogicalView::Text(seq![c]) && ('\u{20}' <= c <= '\u{7e}' || '\u{a0}' <= c)
            ==> typed_key(s, k).line == s.line.push(c) && typed_key(s, k).done == s.done,
        k.key == LogicalView::Special(SpecialKey::Enter) ==> typed_key(s, k).line == Seq::<
            char,
        >::empty() && typed_key(s, k).done == s.done.push(s.line),
        k.key == LogicalView::Special(SpecialKey::Backspace) && s.line.len() > 0 ==> typed_key(
            s,
            k,
        ).line == s.line.take(s.line.len() - 1) && typed_key(s, k).done == s.done,
        k.key == LogicalView::Special(SpecialKey::Backspace) && s.line.len() == 0 ==> typed_key(
            s,
            k,
        ) == s,
        k.key == LogicalView::Text(seq!['\u{3}']) || k.key == LogicalView::Text(seq!['\u{15}'])
            ==> typed_key(s, k).line == Seq::<char>::empty() && typed_key(s, k).done == s.done,
        k.key == LogicalView::Text(seq![c]) && (c <= '\u{1f}' || '\u{7f}' <= c <= '\u{9f}') && c
            != '\u{3}' && c != '\u{15}' ==> typed_key(s, k) == s,
        k.key is Special && k.key != LogicalView::Special(SpecialKey::Enter) && k.key
            != LogicalView::Special(SpecialKey::Backspace) ==> typed_key(s, k) == s,
{
    let t = seq![c];
    assert(t[0] == c);
    let three = seq!['\u{3}'];
    assert(three[0] == '\u{3}');
    let kill = seq!['\u{15}'];
    assert(kill[0] == '\u{15}');
    assert(!printable(three)) by {
        assert(text::control(three[0]));
    }
    assert(!printable(kill)) by {
        assert(text::control(kill[0]));
    }
    assert('\u{20}' <= c <= '\u{7e}' || '\u{a0}' <= c ==> printable(t));
    assert(c <= '\u{1f}' || '\u{7f}' <= c <= '\u{9f}' ==> !printable(t)) by {
        assert(text::control(c) ==> text::control(t[0]));
    }
    assert(s.line + t =~= s.line.push(c));
    if s.line.len() > 0 {
        assert(s.line.drop_last() =~= s.line.take(s.line.len() - 1));
    }
}

/// Text of more than one character is appended whole where all of it is
/// printable, and ignored where some of it is not.
pub proof fn longer_text_is_typed_whole(s: Typing, k: KeyEventView, t: Seq<char>)
    requires
        k.kind != KeyEventKind::Release,
        k.key == LogicalView::Text(t),
        t.len() > 1,
    ensures
        (forall|i: int| 0 <= i < t.len() ==> '\u{20}' <= #[trigger] t[i] <= '\u{7e}') ==> typed_key(
            s,
            k,
        ).line == s.line + t && typed_key(s, k).done == s.done,
        (exists|i: int| 0 <= i < t.len() && #[trigger] t[i] <= '\u{1f}') ==> typed_key(s, k) == s,
{
    if forall|i: int| 0 <= i < t.len() ==> '\u{20}' <= #[trigger] t[i] <= '\u{7e}' {
        assert forall|i: int| 0 <= i < t.len() implies !text::control(#[trigger] t[i]) by {
            lemma_plain(t[i]);
        }
    }
    if exists|i: int| 0 <= i < t.len() && #[trigger] t[i] <= '\u{1f}' {
        let i = choose|i: int| 0 <= i < t.len() && #[trigger] t[i] <= '\u{1f}';
        lemma_plain(t[i]);
    }
}

proof fn lemma_plain(c: char)
    ensures
        '\u{20}' <= c <= '\u{7e}' ==> !text::control(c),
        c <= '\u{1f}' ==> text::control(c),
{
}

/// Letting a key go types nothing, and a frame's keys are typed one after the
/// other.
pub proof fn keys_are_typed_in_turn(s: Typing, a: Seq<KeyEventView>, b: Seq<KeyEventView>)
    ensures
        typed(s, Seq::empty()) == s,
        typed(s, a + b) == typed(typed(s, a), b),
        forall|k: KeyEventView|
            k.kind == KeyEventKind::Release ==> #[trigger] typed_key(s, k) == s,
    decreases b.len(),
{
    if b.len() == 0 {
        assert(a + b =~= a);
    } else {
        keys_are_typed_in_turn(s, a, b.drop_last());
        assert((a + b).drop_last() =~= a + b.drop_last());
        assert((a + b).last() == b.last());
    }
}

/// A typed line is recorded exactly where recording is on, the session is not
/// incognito, the line neither is blank nor begins with a space or a tab, and its
/// first four characters, or all where it has fewer, stand on the screen.
pub proof fn echoed_lines_are_recorded(
    capture: bool,
    incognito: bool,
    line: Seq<char>,
    screen: Option<Seq<char>>,
)
    ensures
        recordable(capture, incognito, line, screen) ==> capture && !incognito && screen is Some
            && text::trimmed(line).len() > 0 && line[0] != ' ' && line[0] != '\t',
        text::trimmed(line).len() >= 4 ==> probe(line) == text::trimmed(line).take(4),
        text::trimmed(line).len() < 4 ==> probe(line) == text::trimmed(line),
        capture && !incognito && text::trimmed(line).len() > 0 && line[0] != ' ' && line[0] != '\t'
            ==> (recordable(capture, incognito, line, screen) <==> (screen matches Some(s)
            && exists|i: int|
            0 <= i && i + probe(line).len() <= s.len() && #[trigger] s.subrange(
                i,
                i + probe(line).len(),
            ) == probe(line))),
{
    if text::trimmed(line).len() < 4 {
        assert(probe(line) =~= text::trimmed(line));
    }
    if let Some(s) = screen {
        let p = probe(line);
        if exists|i: int|
            0 <= i && i + p.len() <= s.len() && #[trigger] s.subrange(i, i + p.len()) == p {
            let i = choose|i: int|
                0 <= i && i + p.len() <= s.len() && #[trigger] s.subrange(i, i + p.len()) == p;
            assert(text::stands_at(s, p, i));
        }
    }
}

/// The focus a frame asks for is the way of the arrow that was pressed last with
/// Ctrl and Shift held.
pub proof fn the_focus_goes_the_arrows_way(
    events: &Vec<InputEvent>,
    mods: Modifiers,
    releases: bool,
    r: InputFrame,
    k: KeyInput,
)
    requires
        call_ensures(collect_input, (events, mods, releases), r),
        events@.len() > 0,
        events@.last()@ == EventView::Key(k),
        k.pressed && k.mods.ctrl && k.mods.shift && !k.mods.alt,
    ensures
        k.key.at() == KEY_ARROW_UP ==> r.focus == Some(Direction::Up),
        k.key.at() == KEY_ARROW_DOWN ==> r.focus == Some(Direction::Down),
        k.key.at() == KEY_ARROW_LEFT ==> r.focus == Some(Direction::Left),
        k.key.at() == KEY_ARROW_RIGHT ==> r.focus == Some(Direction::Right),
{
    let es = event_views(events@);
    assert(es.last() == EventView::Key(k));
    assert(es.drop_last().push(es.last()) =~= es);
    the_last_move_counts(es.drop_last(), Seq::empty(), EventView::Key(k));
}

} // verus!
