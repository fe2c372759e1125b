//! Keys, modifiers, and what a terminal program is told of a key.

use crate::text::{chars_of, same_text};
use vstd::prelude::*;

verus! {

/// How many keys the toolkit knows.
pub const KEY_COUNT: usize = 108;

/// Positions in the toolkit's list of keys, `egui::Key::ALL`.
pub const KEY_ARROW_DOWN: usize = 0;
pub const KEY_ARROW_LEFT: usize = 1;
pub const KEY_ARROW_RIGHT: usize = 2;
pub const KEY_ARROW_UP: usize = 3;
pub const KEY_ESCAPE: usize = 4;
pub const KEY_TAB: usize = 5;
pub const KEY_BACKSPACE: usize = 6;
pub const KEY_ENTER: usize = 7;
pub const KEY_INSERT: usize = 8;
pub const KEY_DELETE: usize = 9;
pub const KEY_HOME: usize = 10;
pub const KEY_END: usize = 11;
pub const KEY_PAGE_UP: usize = 12;
pub const KEY_PAGE_DOWN: usize = 13;
pub const KEY_SPACE: usize = 17;
pub const KEY_C: usize = 48;
pub const KEY_X: usize = 69;
pub const KEY_F1: usize = 72;
pub const KEY_F4: usize = 75;
pub const KEY_F12: usize = 83;

/// A key, by its position in the toolkit's list of keys.
#[derive(Clone, Copy, Debug, PartialEq, Eq, Structural, Hash)]
pub struct Key {
    index: usize,
}

impl Key {
    #[verifier::type_invariant]
    spec fn in_list(self) -> bool {
        self.index < KEY_COUNT
    }

    /// The position of the key in the list.
    pub closed spec fn at(self) -> int {
        self.index as int
    }

    /// The key at a position, or `None` past the end of the list.
    pub fn from_index(index: usize) -> (r: Option<Key>)
        ensures
            r is Some <==> index < KEY_COUNT,
            r matches Some(k) ==> k.at() == index,
    {
        if index < KEY_COUNT {
            Some(Key { index })
        } else {
            None
        }
    }

    /// The position of the key in the list.
    pub fn index(&self) -> (r: usize)
        ensures
            r == self.at(),
            r < KEY_COUNT,
    {
        proof {
            use_type_invariant(self);
        }
        self.index
    }
}

/// The English name of the key at a position of `egui::Key::ALL`.
pub uninterp spec fn key_name_at(index: int) -> Seq<char>;

/// `egui::Key::name` of the key at a position of `egui::Key::ALL`: a fixed
/// English name for each key, named as a whole.
#[verifier::external_body]
fn key_name(index: usize) -> (r: &'static str)
    requires
        index < KEY_COUNT,
    ensures
        r@ == key_name_at(index as int),
{
    egui::Key::ALL[index].name()
}

/// The modifiers the toolkit reports.
#[derive(Clone, Copy, Debug, PartialEq, Eq, Structural)]
pub struct Modifiers {
    pub alt: bool,
    pub ctrl: bool,
    pub shift: bool,
    pub mac_cmd: bool,
    pub command: bool,
}

/// The modifiers a terminal program is told of.
#[derive(Clone, Copy, Debug, PartialEq, Eq, Structural)]
pub struct KeyModifiers {
    pub ctrl: bool,
    pub alt: bool,
    pub shift: bool,
    pub logo: bool,
}

/// The modifiers a terminal program is told of.
pub open spec fn reported_modifiers(m: Modifiers) -> KeyModifiers {
    KeyModifiers { ctrl: m.ctrl, alt: m.alt, shift: m.shift, logo: m.command || m.mac_cmd }
}

impl Modifiers {
    /// No modifier.
    pub fn none() -> (r: Modifiers)
        ensures
            r == (Modifiers {
                alt: false,
                ctrl: false,
                shift: false,
                mac_cmd: false,
                command: false,
            }),
    {
        Modifiers { alt: false, ctrl: false, shift: false, mac_cmd: false, command: false }
    }

    /// The modifiers a terminal program is told of.
    pub fn reported(&self) -> (r: KeyModifiers)
        ensures
            r == reported_modifiers(*self),
    {
        KeyModifiers {
            ctrl: self.ctrl,
            alt: self.alt,
            shift: self.shift,
            logo: self.command || self.mac_cmd,
        }
    }
}

/// A key that a terminal program gets as a sequence of its own.
#[derive(Clone, Copy, Debug, PartialEq, Eq, Structural)]
pub enum SpecialKey {
    Enter,
    Backspace,
    Tab,
    Escape,
    ArrowUp,
    ArrowDown,
    ArrowRight,
    ArrowLeft,
    Home,
    End,
    Insert,
    Delete,
    PageUp,
    PageDown,
    Function(u8),
}

/// What a key means to a terminal program.
#[derive(Debug, PartialEq, Eq)]
pub enum LogicalKey {
    Text(String),
    Special(SpecialKey),
}

/// The meaning of a key, with its text as characters.
pub enum LogicalView {
    Text(Seq<char>),
    Special(SpecialKey),
}

impl View for LogicalKey {
    type V = LogicalView;

    open spec fn view(&self) -> LogicalView {
        match self {
            LogicalKey::Text(s) => LogicalView::Text(s@),
            LogicalKey::Special(k) => LogicalView::Special(*k),
        }
    }
}

impl LogicalKey {
    /// A copy.
    pub fn copy(&self) -> (r: LogicalKey)
        ensures
            r@ == self@,
    {
        match self {
            LogicalKey::Text(s) => LogicalKey::Text(s.clone()),
            LogicalKey::Special(k) => LogicalKey::Special(*k),
        }
    }
}

/// The key that has a sequence of its own at a position of the list.
pub open spec fn special_at(i: int) -> Option<SpecialKey> {
    if i == KEY_ENTER {
        Some(SpecialKey::Enter)
    } else if i == KEY_BACKSPACE {
        Some(SpecialKey::Backspace)
    } else if i == KEY_TAB {
        Some(SpecialKey::Tab)
    } else if i == KEY_ESCAPE {
        Some(SpecialKey::Escape)
    } else if i == KEY_ARROW_UP {
        Some(SpecialKey::ArrowUp)
    } else if i == KEY_ARROW_DOWN {
        Some(SpecialKey::ArrowDown)
    } else if i == KEY_ARROW_RIGHT {
        Some(SpecialKey::ArrowRight)
    } else if i == KEY_ARROW_LEFT {
        Some(SpecialKey::ArrowLeft)
    } else if i == KEY_HOME {
        Some(SpecialKey::Home)
    } else if i == KEY_END {
        Some(SpecialKey::End)
    } else if i == KEY_INSERT {
        Some(SpecialKey::Insert)
    } else if i == KEY_DELETE {
        Some(SpecialKey::Delete)
    } else if i == KEY_PAGE_UP {
        Some(SpecialKey::PageUp)
    } else if i == KEY_PAGE_DOWN {
        Some(SpecialKey::PageDown)
    } else if KEY_F1 <= i <= KEY_F12 {
        Some(SpecialKey::Function((i - KEY_F1 + 1) as u8))
    } else {
        None
    }
}

/// The key that has a sequence of its own at a position of the list.
pub fn special_key(i: usize) -> (r: Option<SpecialKey>)
    ensures
        r == special_at(i as int),
{
    if i == KEY_ENTER {
        Some(SpecialKey::Enter)
    } else if i == KEY_BACKSPACE {
        Some(SpecialKey::Backspace)
    } else if i == KEY_TAB {
        Some(SpecialKey::Tab)
    } else if i == KEY_ESCAPE {
        Some(SpecialKey::Escape)
    } else if i == KEY_ARROW_UP {
        Some(SpecialKey::ArrowUp)
    } else if i == KEY_ARROW_DOWN {
        Some(SpecialKey::ArrowDown)
    } else if i == KEY_ARROW_RIGHT {
        Some(SpecialKey::ArrowRight)
    } else if i == KEY_ARROW_LEFT {
        Some(SpecialKey::ArrowLeft)
    } else if i == KEY_HOME {
        Some(SpecialKey::Home)
    } else if i == KEY_END {
        Some(SpecialKey::End)
    } else if i == KEY_INSERT {
        Some(SpecialKey::Insert)
    } else if i == KEY_DELETE {
        Some(SpecialKey::Delete)
    } else if i == KEY_PAGE_UP {
        Some(SpecialKey::PageUp)
    } else if i == KEY_PAGE_DOWN {
        Some(SpecialKey::PageDown)
    } else if KEY_F1 <= i && i <= KEY_F12 {
        Some(SpecialKey::Function((i - KEY_F1 + 1) as u8))
    } else {
        None
    }
}

/// The control character of a letter: its place in the alphabet, from 1.
pub open spec fn letter_control(c: char) -> Option<char> {
    if 65 <= c as u32 <= 90 {
        Some((c as u32 - 64) as char)
    } else if 97 <= c as u32 <= 122 {
        Some((c as u32 - 96) as char)
    } else {
        None
    }
}

/// The control character of a key that is named by a single letter.
pub open spec fn control_char(name: Seq<char>) -> Option<char> {
    if name.len() == 1 {
        letter_control(name[0])
    } else {
        None
    }
}

fn control_of_letter(c: char) -> (r: Option<char>)
    ensures
        r == letter_control(c),
{
    let n: u32 = c as u32;
    if 65 <= n && n <= 90 {
        Some((n as u8 - 64u8) as char)
    } else if 97 <= n && n <= 122 {
        Some((n as u8 - 96u8) as char)
    } else {
        None
    }
}

/// The control character a key sends with Ctrl held: that of the letter that
/// names it. A key with a longer name (`Comma`, `Semicolon`) sends none.
pub fn control_of_name(name: &str) -> (r: Option<char>)
    ensures
        r == control_char(name@),
{
    let cs = chars_of(name);
    if cs.len() != 1 {
        return None;
    }
    control_of_letter(cs[0])
}

/// What a key means to a terminal program; `None` for a key whose text comes
/// as a text event.
pub open spec fn logical_key(i: int, ctrl: bool) -> Option<LogicalView> {
    match special_at(i) {
        Some(k) => Some(LogicalView::Special(k)),
        None => if !ctrl {
            None
        } else if i == KEY_SPACE {
            Some(LogicalView::Text(seq!['\0']))
        } else {
            match control_char(key_name_at(i)) {
                Some(c) => Some(LogicalView::Text(seq![c])),
                None => None,
            }
        },
    }
}

/// The view of an optional meaning.
pub open spec fn opt_logical(o: Option<LogicalKey>) -> Option<LogicalView> {
    match o {
        Some(k) => Some(k@),
        None => None,
    }
}

fn text_key(c: char) -> (r: LogicalKey)
    ensures
        r@ == LogicalView::Text(seq![c]),
{
    let mut s = String::new();
    s.push(c);
    assert(s@ =~= seq![c]);
    LogicalKey::Text(s)
}

/// What a key means to a terminal program: a sequence of its own for the
/// special keys, a control character for a Ctrl chord, nothing for a key whose
/// text comes as a text event.
pub fn egui_key_to_logical(key: Key, mods: KeyModifiers) -> (r: Option<LogicalKey>)
    ensures
        opt_logical(r) == logical_key(key.at(), mods.ctrl),
{
    let i: usize = key.index();
    match special_key(i) {
        Some(k) => Some(LogicalKey::Special(k)),
        None => if !mods.ctrl {
            None
        } else if i == KEY_SPACE {
            Some(text_key('\0'))
        } else {
            match control_of_name(key_name(i)) {
                Some(c) => Some(text_key(c)),
                None => None,
            }
        },
    }
}

/// A character in lower case, where it is a letter of ASCII.
pub open spec fn lower(c: char) -> char {
    if 65 <= c as u32 <= 90 {
        (c as u32 + 32) as char
    } else {
        c
    }
}

/// The token of a key name: lower case, with the equals key folded onto plus
/// and a digit spelled `num0` to `num9`.
pub open spec fn token_of(name: Seq<char>) -> Seq<char> {
    let low = name.map_values(|c: char| lower(c));
    if low == "equals"@ {
        "plus"@
    } else if low.len() == 1 && 48 <= low[0] as u32 <= 57 {
        "num"@ + low
    } else {
        low
    }
}

/// The token of a key name.
pub fn token_of_name(name: &str) -> (r: String)
    ensures
        r@ == token_of(name@),
{
    let cs = chars_of(name);
    let mut low = String::new();
    let mut i: usize = 0;
    while i < cs.len()
        invariant
            i <= cs@.len(),
            cs@ == name@,
            low@ == name@.map_values(|c: char| lower(c)).take(i as int),
        decreases cs@.len() - i,
    {
        let n: u32 = cs[i] as u32;
        if 65 <= n && n <= 90 {
            low.push((n as u8 + 32u8) as char);
        } else {
            low.push(cs[i]);
        }
        assert(low@ =~= name@.map_values(|c: char| lower(c)).take(i + 1));
        i += 1;
    }
    assert(low@ =~= name@.map_values(|c: char| lower(c)));
    if same_text(low.as_str(), "equals") {
        return "plus".to_owned();
    }
    if cs.len() == 1 {
        let n: u32 = cs[0] as u32;
        if 48 <= n && n <= 57 {
            let mut out = "num".to_owned();
            out.append(low.as_str());
            return out;
        }
    }
    low
}

/// The token a key is matched by in a key binding.
pub fn egui_key_token(key: Key) -> (r: String)
    ensures
        r@ == token_of(key_name_at(key.at())),
{
    token_of_name(key_name(key.index()))
}

/// Each named key keeps its own meaning, with or without Ctrl.
pub proof fn named_keys_keep_their_meaning(ctrl: bool)
    ensures
        logical_key(KEY_ENTER as int, ctrl) == Some(LogicalView::Special(SpecialKey::Enter)),
        logical_key(KEY_BACKSPACE as int, ctrl) == Some(
            LogicalView::Special(SpecialKey::Backspace),
        ),
        logical_key(KEY_TAB as int, ctrl) == Some(LogicalView::Special(SpecialKey::Tab)),
        logical_key(KEY_ESCAPE as int, ctrl) == Some(LogicalView::Special(SpecialKey::Escape)),
        logical_key(KEY_ARROW_UP as int, ctrl) == Some(LogicalView::Special(SpecialKey::ArrowUp)),
        logical_key(KEY_ARROW_DOWN as int, ctrl) == Some(
            LogicalView::Special(SpecialKey::ArrowDown),
        ),
        logical_key(KEY_ARROW_LEFT as int, ctrl) == Some(
            LogicalView::Special(SpecialKey::ArrowLeft),
        ),
        logical_key(KEY_ARROW_RIGHT as int, ctrl) == Some(
            LogicalView::Special(SpecialKey::ArrowRight),
        ),
        logical_key(KEY_HOME as int, ctrl) == Some(LogicalView::Special(SpecialKey::Home)),
        logical_key(KEY_END as int, ctrl) == Some(LogicalView::Special(SpecialKey::End)),
        logical_key(KEY_INSERT as int, ctrl) == Some(LogicalView::Special(SpecialKey::Insert)),
        logical_key(KEY_DELETE as int, ctrl) == Some(LogicalView::Special(SpecialKey::Delete)),
        logical_key(KEY_PAGE_UP as int, ctrl) == Some(LogicalView::Special(SpecialKey::PageUp)),
        logical_key(KEY_PAGE_DOWN as int, ctrl) == Some(
            LogicalView::Special(SpecialKey::PageDown),
        ),
        forall|n: int|
            1 <= n <= 12 ==> #[trigger] logical_key(71 + n, ctrl) == Some(
                LogicalView::Special(SpecialKey::Function(n as u8)),
            ),
{
}

/// The named keys stand where the toolkit lists them: the arrows first, the
/// editing keys after them, the function keys in one run.
pub proof fn named_keys_stand_apart()
    ensures
        KEY_ARROW_DOWN == 0 && KEY_ARROW_LEFT == 1 && KEY_ARROW_RIGHT == 2 && KEY_ARROW_UP == 3,
        KEY_ESCAPE == 4 && KEY_TAB == 5 && KEY_BACKSPACE == 6 && KEY_ENTER == 7,
        KEY_INSERT == 8 && KEY_DELETE == 9 && KEY_HOME == 10 && KEY_END == 11,
        KEY_PAGE_UP == 12 && KEY_PAGE_DOWN == 13 && KEY_SPACE == 17,
        KEY_C == 48 && KEY_X == 69,
        KEY_F1 == 72 && KEY_F4 == 75 && KEY_F12 == 83 && KEY_COUNT == 108,
{
}

/// A key that is neither named nor a function key has no meaning without Ctrl:
/// its text comes as a text event.
pub proof fn plain_keys_are_left_to_text_events(i: int)
    requires
        !(0 <= i <= 13),
        !(72 <= i <= 83),
    ensures
        logical_key(i, false) is None,
        logical_key(i, true) matches Some(k) ==> k is Text,
{
}

/// What lowering a character and its control character come to.
proof fn lemma_letters(c: char)
    ensures
        'A' <= c <= 'Z' ==> lower(c) as int == c as int + 32,
        !('A' <= c <= 'Z') ==> lower(c) == c,
        !('A' <= c <= 'Z') && !('a' <= c <= 'z') ==> letter_control(c) is None,
{
}

/// Ctrl and a letter send the letter's place in the alphabet, whatever the case
/// the key is named in; Ctrl and the space bar send the zero character; a key
/// whose name is no single letter sends nothing.
pub proof fn ctrl_sends_the_place_in_the_alphabet(i: int, n: int)
    requires
        !(0 <= i <= 13),
        !(72 <= i <= 83),
        i != 17,
        1 <= n <= 26,
    ensures
        logical_key(17, true) == Some(LogicalView::Text(seq!['\0'])),
        key_name_at(i) == seq![(64 + n) as char] ==> logical_key(i, true) == Some(
            LogicalView::Text(seq![n as char]),
        ),
        key_name_at(i) == seq![(96 + n) as char] ==> logical_key(i, true) == Some(
            LogicalView::Text(seq![n as char]),
        ),
        key_name_at(i).len() != 1 ==> logical_key(i, true) is None,
        forall|c: char|
            key_name_at(i) == #[trigger] seq![c] && !('A' <= c <= 'Z') && !('a' <= c <= 'z')
                ==> logical_key(i, true) is None,
{
    if key_name_at(i) == seq![(64 + n) as char] {
        assert(key_name_at(i)[0] as u32 == 64 + n);
    }
    if key_name_at(i) == seq![(96 + n) as char] {
        assert(key_name_at(i)[0] as u32 == 96 + n);
    }
    assert forall|c: char|
        key_name_at(i) == #[trigger] seq![c] && !('A' <= c <= 'Z') && !('a' <= c <= 'z') implies logical_key(
        i,
        true,
    ) is None by {
        assert(key_name_at(i)[0] == c);
        lemma_letters(c);
    }
}

/// A terminal program is told of each modifier under its own name; the command
/// key of either kind is the logo key.
pub proof fn modifiers_are_reported_under_their_names(m: Modifiers)
    ensures
        reported_modifiers(m).ctrl <==> m.ctrl,
        reported_modifiers(m).alt <==> m.alt,
        reported_modifiers(m).shift <==> m.shift,
        m.command ==> reported_modifiers(m).logo,
        m.mac_cmd ==> reported_modifiers(m).logo,
        reported_modifiers(m).logo ==> m.command || m.mac_cmd,
{
}

/// A token is the key's name with its capitals made small, but for a digit,
/// which is spelled `num` and the digit, and for the equals key, which goes by
/// `plus` however its name is written.
pub proof fn tokens_are_small_names(name: Seq<char>)
    ensures
        name.len() == 1 && '0' <= name[0] <= '9' ==> token_of(name) == seq!['n', 'u', 'm', name[0]],
        name == "Equals"@ || name == "equals"@ ==> token_of(name) == seq!['p', 'l', 'u', 's'],
        name.len() != 6 && !(name.len() == 1 && '0' <= name[0] <= '9') ==> token_of(name).len()
            == name.len() && forall|j: int|
            0 <= j < name.len() ==> (if 'A' <= name[j] <= 'Z' {
                #[trigger] token_of(name)[j] as int == name[j] as int + 32
            } else {
                token_of(name)[j] == name[j]
            }),
        forall|j: int| 0 <= j < token_of(name).len() ==> !('A' <= #[trigger] token_of(name)[j] <= 'Z'),
{
    reveal_strlit("equals");
    reveal_strlit("Equals");
    reveal_strlit("plus");
    reveal_strlit("num");
    let low = name.map_values(|c: char| lower(c));
    if name == "Equals"@ || name == "equals"@ {
        assert(low =~= "equals"@);
    }
    if name.len() == 1 && '0' <= name[0] <= '9' {
        assert(low =~= name);
        assert(token_of(name) =~= seq!['n', 'u', 'm', name[0]]);
    }
    if name.len() != 6 {
        assert(low.len() != "equals"@.len());
    }
    if name.len() != 6 && !(name.len() == 1 && '0' <= name[0] <= '9') {
        assert(name.len() == 1 ==> low[0] == lower(name[0]));
        assert(token_of(name) == low);
        assert forall|j: int| 0 <= j < name.len() implies (if 'A' <= name[j] <= 'Z' {
            #[trigger] token_of(name)[j] as int == name[j] as int + 32
        } else {
            token_of(name)[j] == name[j]
        }) by {
            let c: char = name[j];
            assert(token_of(name)[j] == lower(c));
            lemma_letters(c);
        }
    }
}

/// A named key is sent under its own name, whatever is held with it, and no other
/// key is sent under that name.
pub proof fn a_name_is_sent_by_its_own_key(key: Key, mods: KeyModifiers, r: Option<LogicalKey>)
    requires
        call_ensures(egui_key_to_logical, (key, mods), r),
    ensures
        key.at() == KEY_ARROW_UP <==> opt_logical(r) == Some(
            LogicalView::Special(SpecialKey::ArrowUp),
        ),
        key.at() == KEY_ARROW_DOWN <==> opt_logical(r) == Some(
            LogicalView::Special(SpecialKey::ArrowDown),
        ),
        key.at() == KEY_ARROW_LEFT <==> opt_logical(r) == Some(
            LogicalView::Special(SpecialKey::ArrowLeft),
        ),
        key.at() == KEY_ARROW_RIGHT <==> opt_logical(r) == Some(
            LogicalView::Special(SpecialKey::ArrowRight),
        ),
        key.at() == KEY_ENTER <==> opt_logical(r) == Some(LogicalView::Special(SpecialKey::Enter)),
        key.at() == KEY_BACKSPACE <==> opt_logical(r) == Some(
            LogicalView::Special(SpecialKey::Backspace),
        ),
        key.at() == KEY_TAB <==> opt_logical(r) == Some(LogicalView::Special(SpecialKey::Tab)),
        key.at() == KEY_ESCAPE <==> opt_logical(r) == Some(
            LogicalView::Special(SpecialKey::Escape),
        ),
        key.at() == KEY_HOME <==> opt_logical(r) == Some(LogicalView::Special(SpecialKey::Home)),
        key.at() == KEY_END <==> opt_logical(r) == Some(LogicalView::Special(SpecialKey::End)),
        key.at() == KEY_INSERT <==> opt_logical(r) == Some(
            LogicalView::Special(SpecialKey::Insert),
        ),
        key.at() == KEY_DELETE <==> opt_logical(r) == Some(
            LogicalView::Special(SpecialKey::Delete),
        ),
        key.at() == KEY_PAGE_UP <==> opt_logical(r) == Some(
            LogicalView::Special(SpecialKey::PageUp),
        ),
        key.at() == KEY_PAGE_DOWN <==> opt_logical(r) == Some(
            LogicalView::Special(SpecialKey::PageDown),
        ),
{
}

} // verus!
