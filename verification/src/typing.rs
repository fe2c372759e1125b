//! What a frame's input does to the shell: keys for the focused terminal,
//! pastes, the composition, the focus and the line being typed.

use crate::app;
use crate::app::{AppView, C0pl4ndApp};
use crate::dispatch;
use crate::grid::{Direction, PaneId};
use crate::grid_interaction::Candidate;
use crate::input_forward;
use crate::input_forward::{
    accrue_line, apply_ime, should_record_history, InputFrame, KeyEvent, Typing,
};
use crate::panes;
use crate::panes::PanesView;
use crate::paste;
use crate::paste::{Paste, PasteConfirmReason, PasteView};
use crate::text;
use vstd::prelude::*;

verus! {

/// The panes around the focused one, as candidates for each direction.
#[derive(Debug, PartialEq, Eq)]
pub struct Neighbours {
    pub left: Vec<Candidate>,
    pub right: Vec<Candidate>,
    pub up: Vec<Candidate>,
    pub down: Vec<Candidate>,
}

/// The candidates in a direction.
pub open spec fn towards(n: Neighbours, dir: Direction) -> Seq<Candidate> {
    match dir {
        Direction::Left => n.left@,
        Direction::Right => n.right@,
        Direction::Up => n.up@,
        Direction::Down => n.down@,
    }
}

/// What a frame's input leaves to do.
#[derive(Debug, PartialEq, Eq)]
pub struct Forwarded {
    /// The terminal the keys go to.
    pub keys_to: Option<PaneId>,
    /// The terminal the pastes go to.
    pub pastes_to: Option<PaneId>,
    /// The pastes that go straight through.
    pub pastes: Vec<String>,
    /// The lines the history is to keep.
    pub record: Vec<String>,
}

/// Pastes with why each must wait.
pub open spec fn guarded(
    pastes: Seq<Seq<char>>,
    reasons: Seq<Option<PasteConfirmReason>>,
) -> Seq<PasteView> {
    Seq::new(pastes.len(), |i: int| PasteView { text: pastes[i], reason: reasons[i] })
}

/// Pastes with why each must wait.
fn guard_pastes(pastes: &Vec<String>, reasons: &Vec<Option<PasteConfirmReason>>) -> (r: Vec<Paste>)
    requires
        pastes@.len() == reasons@.len(),
    ensures
        r@.map_values(|p: Paste| p@) == guarded(text::texts(pastes@), reasons@),
{
    let mut out: Vec<Paste> = Vec::new();
    let mut i: usize = 0;
    while i < pastes.len()
        invariant
            i <= pastes.len(),
            pastes@.len() == reasons@.len(),
            out@.len() == i,
            forall|j: int|
                0 <= j < i ==> (#[trigger] out@[j]).text@ == pastes@[j]@ && out@[j].reason
                    == reasons@[j],
        decreases pastes.len() - i,
    {
        out.push(Paste { text: pastes[i].clone(), reason: reasons[i] });
        i += 1;
    }
    assert(out@.map_values(|p: Paste| p@) =~= guarded(text::texts(pastes@), reasons@));
    out
}

/// The lines that may be recorded, in order.
pub open spec fn kept_lines(
    lines: Seq<Seq<char>>,
    capture: bool,
    incognito: bool,
    screen: Option<Seq<char>>,
) -> Seq<Seq<char>>
    decreases lines.len(),
{
    if lines.len() == 0 {
        Seq::empty()
    } else {
        let rest = kept_lines(lines.drop_last(), capture, incognito, screen);
        if input_forward::recordable(capture, incognito, lines.last(), screen) {
            rest.push(lines.last())
        } else {
            rest
        }
    }
}

/// The lines that may be recorded, in order.
fn keep_lines(lines: &Vec<String>, capture: bool, incognito: bool, screen: &Option<String>) -> (r:
    Vec<String>)
    ensures
        text::texts(r@) == kept_lines(
            text::texts(lines@),
            capture,
            incognito,
            text::opt_text(*screen),
        ),
{
    let ghost all = text::texts(lines@);
    let mut out: Vec<String> = Vec::new();
    let mut i: usize = 0;
    assert(all.take(0) =~= Seq::empty());
    assert(text::texts(out@) =~= Seq::empty());
    while i < lines.len()
        invariant
            i <= lines.len(),
            all == text::texts(lines@),
            text::texts(out@) == kept_lines(
                all.take(i as int),
                capture,
                incognito,
                text::opt_text(*screen),
            ),
        decreases lines.len() - i,
    {
        assert(all.take(i + 1).drop_last() =~= all.take(i as int));
        assert(all.take(i + 1).last() == lines@[i as int]@);
        if should_record_history(capture, incognito, lines[i].as_str(), screen) {
            let ghost before = out@;
            let line = lines[i].clone();
            out.push(line);
            assert(text::texts(out@) =~= text::texts(before).push(line@));
        }
        i += 1;
    }
    assert(all.take(lines@.len() as int) =~= all);
    out
}

/// The panes after the focus moved as the input asked.
pub open spec fn refocused(v: PanesView, focus: Option<Direction>, n: Neighbours) -> PanesView {
    match focus {
        Some(dir) => panes::directed(v, towards(n, dir)),
        None => v,
    }
}

/// What the keys make of the line being typed, and the lines they commit.
pub open spec fn typed_from(v: PanesView, keys: Seq<KeyEvent>) -> Typing {
    input_forward::typed(
        Typing { line: v.line, done: Seq::empty() },
        input_forward::key_views(keys),
    )
}

/// The shell after a frame's input: first the focus moves, then the pastes are
/// taken in and the keys are followed into the line being typed.
pub open spec fn input_taken(
    v: AppView,
    frame: InputFrame,
    reasons: Seq<Option<PasteConfirmReason>>,
    n: Neighbours,
) -> AppView {
    let p = refocused(v.panes, frame.focus, n);
    AppView {
        preedit: input_forward::preedit_after(v.preedit, input_forward::ime_text(frame.ime)),
        panes: PanesView { line: typed_from(p, frame.keys@).line, ..p },
        paste: paste::held(v.paste, guarded(text::texts(frame.pastes@), reasons)),
        ..v
    }
}

impl C0pl4ndApp {
    /// Take in a frame's input for the focused pane. `reasons` says of each
    /// paste why it must wait, if it must.
    pub fn forward_input_to_focused(
        &mut self,
        frame: &InputFrame,
        reasons: &Vec<Option<PasteConfirmReason>>,
        neighbours: &Neighbours,
    ) -> (r: Forwarded)
        requires
            frame.pastes@.len() == reasons@.len(),
        ensures
            final(self)@ == input_taken(old(self)@, *frame, reasons@, *neighbours),
            r.keys_to == dispatch::live_focus(old(self)@.panes),
            r.pastes_to == dispatch::live_focus(
                refocused(old(self)@.panes, frame.focus, *neighbours),
            ),
            text::texts(r.pastes@) == paste::straight(
                guarded(text::texts(frame.pastes@), reasons@),
            ),
            ({
                let p = refocused(old(self)@.panes, frame.focus, *neighbours);
                text::texts(r.record@) == kept_lines(
                    typed_from(p, frame.keys@).done,
                    old(self)@.config.history_capture_enabled,
                    old(self)@.palette.incognito,
                    app::screen_of(p, p.focused),
                )
            }),
    {
        apply_ime(&mut self.ime_preedit, &frame.ime);
        let keys_to = self.focused_terminal();
        match frame.focus {
            Some(Direction::Left) => self.panes.focus_directional(&neighbours.left),
            Some(Direction::Right) => self.panes.focus_directional(&neighbours.right),
            Some(Direction::Up) => self.panes.focus_directional(&neighbours.up),
            Some(Direction::Down) => self.panes.focus_directional(&neighbours.down),
            None => {},
        }
        let ghost p = self@.panes;
        let pastes_to = self.focused_terminal();
        let pastes = self.paste.take_in(guard_pastes(&frame.pastes, reasons));
        let done = accrue_line(&mut self.panes.input_line, &frame.keys);
        let screen = self.panes.pane_grid_text(self.panes.focused_pane);
        let record = keep_lines(
            &done,
            self.config.history_capture_enabled,
            self.palette.incognito,
            &screen,
        );
        Forwarded { keys_to, pastes_to, pastes, record }
    }
}

/// In an incognito session nothing typed is recorded.
pub proof fn incognito_records_nothing(
    lines: Seq<Seq<char>>,
    capture: bool,
    screen: Option<Seq<char>>,
)
    ensures
        kept_lines(lines, capture, true, screen) == Seq::<Seq<char>>::empty(),
    decreases lines.len(),
{
    if lines.len() > 0 {
        incognito_records_nothing(lines.drop_last(), capture, screen);
    }
}

/// Moving the focus to another pane starts the line anew, before the keys of the
/// frame are added to it; where the focus stays, so does the line.
pub proof fn moving_the_focus_starts_a_line(v: PanesView, focus: Option<Direction>, n: Neighbours)
    ensures
        refocused(v, focus, n).focused != v.focused ==> refocused(v, focus, n).line == Seq::<
            char,
        >::empty(),
        refocused(v, focus, n).focused == v.focused ==> refocused(v, focus, n) == v,
{
}

/// A move of the focus looks among the panes on its own side.
pub proof fn each_direction_has_its_own_panes(n: Neighbours)
    ensures
        towards(n, Direction::Left) == n.left@,
        towards(n, Direction::Right) == n.right@,
        towards(n, Direction::Up) == n.up@,
        towards(n, Direction::Down) == n.down@,
{
}

/// The focus moves as the input asked, and stays where it asked for no move.
pub proof fn the_focus_moves_as_asked(v: PanesView, n: Neighbours)
    ensures
        refocused(v, None, n) == v,
        refocused(v, Some(Direction::Left), n) == panes::directed(v, n.left@),
        refocused(v, Some(Direction::Right), n) == panes::directed(v, n.right@),
        refocused(v, Some(Direction::Up), n) == panes::directed(v, n.up@),
        refocused(v, Some(Direction::Down), n) == panes::directed(v, n.down@),
{
}

/// Each paste goes with the reason that was found for it.
pub proof fn pastes_keep_their_reasons(
    pastes: Seq<Seq<char>>,
    reasons: Seq<Option<PasteConfirmReason>>,
    i: int,
)
    requires
        0 <= i < pastes.len(),
    ensures
        guarded(pastes, reasons).len() == pastes.len(),
        guarded(pastes, reasons)[i].text == pastes[i],
        guarded(pastes, reasons)[i].reason == reasons[i],
{
}

/// Of the lines that were committed exactly those that may be recorded are kept,
/// in order: a line that may be is kept behind the others, and one that may not
/// be leaves the others as they are.
pub proof fn lines_are_kept_in_order(
    lines: Seq<Seq<char>>,
    line: Seq<char>,
    capture: bool,
    incognito: bool,
    screen: Option<Seq<char>>,
)
    ensures
        kept_lines(Seq::empty(), capture, incognito, screen).len() == 0,
        input_forward::recordable(capture, incognito, line, screen) ==> kept_lines(
            lines.push(line),
            capture,
            incognito,
            screen,
        ) == kept_lines(lines, capture, incognito, screen).push(line),
        !input_forward::recordable(capture, incognito, line, screen) ==> kept_lines(
            lines.push(line),
            capture,
            incognito,
            screen,
        ) == kept_lines(lines, capture, incognito, screen),
{
    assert(lines.push(line).drop_last() =~= lines);
    assert(lines.push(line).last() == line);
}

/// A frame's input changes the composition, the panes' focus and line, and what
/// waits to be pasted, and nothing else; the keys are typed into the line of the
/// pane that has the focus once it has moved.
pub proof fn input_touches_nothing_else(
    v: AppView,
    frame: InputFrame,
    reasons: Seq<Option<PasteConfirmReason>>,
    n: Neighbours,
)
    ensures
        ({
            let w = input_taken(v, frame, reasons, n);
            let p = refocused(v.panes, frame.focus, n);
            &&& w == (AppView { preedit: w.preedit, panes: w.panes, paste: w.paste, ..v })
            &&& w.panes == (PanesView { line: w.panes.line, ..p })
            &&& frame.keys@.len() == 0 ==> w.panes.line == p.line
            &&& w.paste == paste::held(v.paste, guarded(text::texts(frame.pastes@), reasons))
            &&& frame.pastes@.len() == 0 ==> w.paste == v.paste
            &&& frame.ime is None ==> w.preedit == v.preedit
            &&& frame.ime matches Some(t) ==> w.preedit == text::opt_text(t)
            &&& w.panes.line == input_forward::typed(
                Typing { line: p.line, done: Seq::empty() },
                input_forward::key_views(frame.keys@),
            ).line
        }),
{
    assert(frame.keys@.len() == 0 ==> input_forward::key_views(frame.keys@) =~= Seq::empty());
    if frame.pastes@.len() == 0 {
        assert(guarded(text::texts(frame.pastes@), reasons) =~= Seq::empty());
    }
}

} // verus!
