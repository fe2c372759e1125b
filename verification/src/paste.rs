//! Pastes that wait for an answer.

use crate::text;
use crate::text::{chars_of, decimal_of, is_control};
use vstd::prelude::*;

verus! {

/// Why a paste waits for an answer.
#[derive(Clone, Copy, Debug, PartialEq, Eq, Structural)]
pub enum PasteConfirmReason {
    /// It has more than one line.
    MultiLine,
    /// It is one long line.
    LongLine,
}

/// A paste, and why it must wait if it must.
#[derive(Debug, PartialEq, Eq)]
pub struct Paste {
    pub text: String,
    pub reason: Option<PasteConfirmReason>,
}

/// The view of a paste.
pub struct PasteView {
    pub text: Seq<char>,
    pub reason: Option<PasteConfirmReason>,
}

impl View for Paste {
    type V = PasteView;

    open spec fn view(&self) -> PasteView {
        PasteView { text: self.text@, reason: self.reason }
    }
}

/// The paste that waits for an answer.
#[derive(Debug, PartialEq, Eq)]
pub struct PendingPaste {
    /// Its text.
    pub pending_paste: Option<String>,
    /// Why it waits.
    pub pending_paste_reason: Option<PasteConfirmReason>,
}

/// The view of what waits: a paste with its reason.
pub struct PendingView {
    pub text: Option<Seq<char>>,
    pub reason: Option<PasteConfirmReason>,
}

impl View for PendingPaste {
    type V = PendingView;

    open spec fn view(&self) -> PendingView {
        PendingView {
            text: text::opt_text(self.pending_paste),
            reason: self.pending_paste_reason,
        }
    }
}

/// A text waits exactly where a reason is known.
pub open spec fn in_step(v: PendingView) -> bool {
    v.text is Some <==> v.reason is Some
}

/// Nothing waits.
pub open spec fn nothing_waits() -> PendingView {
    PendingView { text: None, reason: None }
}

/// The pastes that go straight through, in order.
pub open spec fn straight(pastes: Seq<PasteView>) -> Seq<Seq<char>>
    decreases pastes.len(),
{
    if pastes.len() == 0 {
        Seq::empty()
    } else if pastes.last().reason is None {
        straight(pastes.drop_last()).push(pastes.last().text)
    } else {
        straight(pastes.drop_last())
    }
}

/// What waits after these pastes: the last one that must wait, or else what
/// waited before.
pub open spec fn held(v: PendingView, pastes: Seq<PasteView>) -> PendingView
    decreases pastes.len(),
{
    if pastes.len() == 0 {
        v
    } else if pastes.last().reason is Some {
        PendingView { text: Some(pastes.last().text), reason: pastes.last().reason }
    } else {
        held(v, pastes.drop_last())
    }
}

/// What the confirmation came to.
#[derive(Debug, PartialEq, Eq)]
pub enum PasteAnswer {
    /// Nothing was waiting.
    Nothing,
    /// It still waits.
    Asking,
    /// It was thrown away.
    Cancelled,
    /// It is to be written to the focused terminal.
    Send(String),
}

impl PendingPaste {
    /// Nothing waits.
    pub fn new() -> (r: PendingPaste)
        ensures
            r@ == nothing_waits(),
    {
        PendingPaste { pending_paste: None, pending_paste_reason: None }
    }

    /// Whether a paste waits.
    pub fn has_pending_paste(&self) -> (r: bool)
        ensures
            r == (self@.text is Some),
    {
        self.pending_paste.is_some()
    }

    /// Take in the pastes of a frame. Gives those that go straight to the
    /// terminal.
    pub fn take_in(&mut self, pastes: Vec<Paste>) -> (r: Vec<String>)
        ensures
            text::texts(r@) == straight(pastes@.map_values(|p: Paste| p@)),
            final(self)@ == held(old(self)@, pastes@.map_values(|p: Paste| p@)),
    {
        let ghost all = pastes@.map_values(|p: Paste| p@);
        let mut out: Vec<String> = Vec::new();
        let mut i: usize = 0;
        assert(all.take(0) =~= Seq::empty());
        assert(text::texts(out@) =~= Seq::empty());
        while i < pastes.len()
            invariant
                i <= pastes.len(),
                all == pastes@.map_values(|p: Paste| p@),
                text::texts(out@) == straight(all.take(i as int)),
                self@ == held(old(self)@, all.take(i as int)),
            decreases pastes.len() - i,
        {
            assert(all.take(i + 1).drop_last() =~= all.take(i as int));
            assert(all.take(i + 1).last() == pastes@[i as int]@);
            let copy = pastes[i].text.clone();
            match pastes[i].reason {
                Some(reason) => {
                    self.pending_paste = Some(copy);
                    self.pending_paste_reason = Some(reason);
                },
                None => {
                    let ghost before = out@;
                    out.push(copy);
                    assert(text::texts(out@) =~= text::texts(before).push(copy@));
                },
            }
            i += 1;
        }
        assert(all.take(pastes@.len() as int) =~= all);
        out
    }

    /// Answer yes: gives the text to write, if one waited.
    pub fn confirm_pending_paste(&mut self) -> (r: Option<String>)
        ensures
            text::opt_text(r) == old(self)@.text,
            final(self)@ == (if old(self)@.text is Some {
                nothing_waits()
            } else {
                old(self)@
            }),
    {
        match self.pending_paste.take() {
            Some(text) => {
                self.pending_paste_reason = None;
                Some(text)
            },
            None => None,
        }
    }

    /// Answer no: what waited is thrown away.
    pub fn cancel_pending_paste(&mut self)
        ensures
            final(self)@ == nothing_waits(),
    {
        self.pending_paste = None;
        self.pending_paste_reason = None;
    }

    /// Answer by key or button; no wins over yes.
    pub fn answer(&mut self, yes: bool, no: bool) -> (r: PasteAnswer)
        ensures
            old(self)@.text is None ==> r is Nothing && final(self)@ == old(self)@,
            old(self)@.text matches Some(t) ==> {
                &&& no ==> r is Cancelled && final(self)@ == nothing_waits()
                &&& !no && yes ==> (r matches PasteAnswer::Send(s) && s@ == t) && final(self)@
                    == nothing_waits()
                &&& !no && !yes ==> r is Asking && final(self)@ == old(self)@
            },
    {
        if self.pending_paste.is_none() {
            return PasteAnswer::Nothing;
        }
        if no {
            self.cancel_pending_paste();
            return PasteAnswer::Cancelled;
        }
        if yes {
            if let Some(text) = self.confirm_pending_paste() {
                return PasteAnswer::Send(text);
            }
        }
        PasteAnswer::Asking
    }
}

/// A paste and its reason are held, kept and let go together.
pub proof fn the_reason_stays_in_step(v: PendingView, pastes: Seq<PasteView>)
    requires
        in_step(v),
    ensures
        in_step(held(v, pastes)),
        in_step(nothing_waits()),
    decreases pastes.len(),
{
    if pastes.len() > 0 {
        the_reason_stays_in_step(v, pastes.drop_last());
    }
}

/// A paste that must wait is never written without an answer.
pub proof fn held_pastes_are_not_written(pastes: Seq<PasteView>)
    requires
        forall|i: int| 0 <= i < pastes.len() ==> (#[trigger] pastes[i]).reason is Some,
    ensures
        straight(pastes) == Seq::<Seq<char>>::empty(),
    decreases pastes.len(),
{
    if pastes.len() > 0 {
        assert(pastes[pastes.len() - 1].reason is Some);
        assert forall|i: int| 0 <= i < pastes.drop_last().len() implies (
        #[trigger] pastes.drop_last()[i]).reason is Some by {
            assert(pastes.drop_last()[i] == pastes[i]);
        }
        held_pastes_are_not_written(pastes.drop_last());
    }
}

/// How many line ends a text has.
pub open spec fn line_ends(s: Seq<char>) -> nat
    decreases s.len(),
{
    if s.len() == 0 {
        0
    } else {
        line_ends(s.drop_last()) + (if s.last() == '\n' {
            1nat
        } else {
            0nat
        })
    }
}

/// How many lines a text has: a last line counts without its line end too, and
/// the empty text has one.
pub open spec fn line_count(s: Seq<char>) -> nat {
    if s.len() == 0 {
        1
    } else if s.last() == '\n' {
        line_ends(s)
    } else {
        line_ends(s) + 1
    }
}

/// How many lines a text has.
pub fn count_lines(s: &str) -> (r: usize)
    ensures
        r as nat == line_count(s@),
        r >= 1,
{
    let cs = chars_of(s);
    if cs.len() == 0 {
        return 1;
    }
    let mut n: usize = 0;
    let mut i: usize = 0;
    let last: usize = cs.len() - 1;
    assert(cs@.take(0) =~= Seq::empty());
    while i < last
        invariant
            i <= last < cs.len(),
            n <= i,
            n as nat == line_ends(cs@.take(i as int)),
        decreases last - i,
    {
        assert(cs@.take(i + 1).drop_last() =~= cs@.take(i as int));
        if cs[i] == '\n' {
            n += 1;
        }
        i += 1;
    }
    assert(cs@.drop_last() =~= cs@.take(last as int));
    n + 1
}

/// The longest preview of a paste, in characters.
pub const PREVIEW_CHARS: usize = 400;

/// What may stand in a preview: line ends, and what is no control character.
pub open spec fn previewed(c: char) -> bool {
    !text::control(c) || c == '\n'
}

/// What may stand in a preview, in order.
pub open spec fn previewable(s: Seq<char>) -> Seq<char>
    decreases s.len(),
{
    if s.len() == 0 {
        s
    } else if previewed(s.last()) {
        previewable(s.drop_last()).push(s.last())
    } else {
        previewable(s.drop_last())
    }
}

/// The preview of a paste.
pub open spec fn preview_text(s: Seq<char>) -> Seq<char> {
    let p = previewable(s);
    if p.len() <= PREVIEW_CHARS {
        p
    } else {
        p.take(PREVIEW_CHARS as int)
    }
}

/// The preview of a paste.
pub fn preview(s: &str) -> (r: String)
    ensures
        r@ == preview_text(s@),
{
    let cs = chars_of(s);
    let mut out = String::new();
    let mut n: usize = 0;
    let mut i: usize = 0;
    assert(cs@.take(0) =~= Seq::empty());
    while i < cs.len() && n < PREVIEW_CHARS
        invariant
            i <= cs.len(),
            n <= PREVIEW_CHARS,
            cs@ == s@,
            out@ == previewable(cs@.take(i as int)),
            out@.len() == n,
        decreases cs.len() - i,
    {
        assert(cs@.take(i + 1).drop_last() =~= cs@.take(i as int));
        if !is_control(cs[i]) || cs[i] == '\n' {
            out.push(cs[i]);
            n += 1;
        }
        i += 1;
    }
    proof {
        lemma_previewable_grows(cs@, i as int);
        assert(cs@.take(cs@.len() as int) =~= cs@);
        if n == PREVIEW_CHARS {
            assert(previewable(cs@).take(PREVIEW_CHARS as int) =~= out@);
        }
    }
    out
}

/// The preview of a beginning begins the preview of the whole.
proof fn lemma_previewable_grows(s: Seq<char>, i: int)
    requires
        0 <= i <= s.len(),
    ensures
        previewable(s.take(i)).len() <= previewable(s).len(),
        previewable(s).take(previewable(s.take(i)).len() as int) == previewable(s.take(i)),
    decreases s.len(),
{
    if i == s.len() {
        assert(s.take(i) =~= s);
        assert(previewable(s).take(previewable(s).len() as int) =~= previewable(s));
    } else {
        let rest = s.drop_last();
        assert(rest.take(i) =~= s.take(i));
        lemma_previewable_grows(rest, i);
        assert(previewable(s).take(previewable(s.take(i)).len() as int) =~= previewable(rest).take(
            previewable(s.take(i)).len() as int,
        ));
    }
}

/// Whatever is pasted, its preview holds no control characters but line ends,
/// and is never long.
pub proof fn previews_hold_no_controls(s: Seq<char>, i: int)
    requires
        0 <= i < preview_text(s).len(),
    ensures
        previewed(preview_text(s)[i]),
        preview_text(s).len() <= PREVIEW_CHARS,
{
    lemma_previewable_holds(s, i);
}

/// What may stand in a preview is all that is kept for one.
proof fn lemma_previewable_holds(s: Seq<char>, i: int)
    requires
        0 <= i < previewable(s).len(),
    ensures
        previewed(previewable(s)[i]),
    decreases s.len(),
{
    if s.len() > 0 {
        let rest = s.drop_last();
        if i < previewable(rest).len() {
            lemma_previewable_holds(rest, i);
        }
    }
}

/// The question about a waiting paste.
pub open spec fn question(s: Seq<char>) -> Seq<char> {
    "This paste contains "@ + text::decimal(line_count(s))
        + " lines and may run commands as soon as it lands."@
}

/// The question about a waiting paste.
pub fn paste_question(s: &str) -> (r: String)
    ensures
        r@ == question(s@),
{
    let n = count_lines(s);
    let mut out = "This paste contains ".to_owned();
    out.append(decimal_of(n as u64).as_str());
    out.append(" lines and may run commands as soon as it lands.");
    out
}

/// Pastes that need no answer go straight through in their order, and those that
/// must wait do not.
pub proof fn pastes_go_through_in_order(
    a: Seq<PasteView>,
    b: Seq<PasteView>,
    p: PasteView,
)
    ensures
        straight(Seq::empty()).len() == 0,
        p.reason is None ==> straight(a.push(p)) == straight(a).push(p.text),
        p.reason is Some ==> straight(a.push(p)) == straight(a),
        straight(a + b) == straight(a) + straight(b),
    decreases b.len(),
{
    assert(a.push(p).drop_last() =~= a);
    assert(a.push(p).last() == p);
    if b.len() == 0 {
        assert(a + b =~= a);
        assert(straight(a) + straight(b) =~= straight(a));
    } else {
        pastes_go_through_in_order(a, b.drop_last(), p);
        assert((a + b).drop_last() =~= a + b.drop_last());
        assert((a + b).last() == b.last());
        assert(straight(a + b) =~= straight(a) + straight(b));
    }
}

/// The last paste that must wait is the one that waits, with its own text and its
/// own reason; without one, what waited before still waits.
pub proof fn the_last_paste_waits(v: PendingView, a: Seq<PasteView>, p: PasteView)
    ensures
        held(v, Seq::empty()) == v,
        p.reason is Some ==> held(v, a.push(p)).text == Some(p.text) && held(v, a.push(p)).reason
            == p.reason,
        p.reason is None ==> held(v, a.push(p)) == held(v, a),
        nothing_waits().text is None && nothing_waits().reason is None,
{
    assert(a.push(p).drop_last() =~= a);
    assert(a.push(p).last() == p);
}

/// A text has one line, and one more for each line end that something follows.
pub proof fn lines_are_counted_by_their_ends(s: Seq<char>, c: char)
    ensures
        line_ends(Seq::empty()) == 0,
        line_ends(s.push('\n')) == line_ends(s) + 1,
        c != '\n' ==> line_ends(s.push(c)) == line_ends(s),
        line_count(Seq::empty()) == 1,
        line_count(s.push('\n')) == line_ends(s) + 1,
        c != '\n' ==> line_count(s.push(c)) == line_ends(s) + 1,
{
    assert(s.push('\n').drop_last() =~= s);
    assert(s.push(c).drop_last() =~= s);
}

/// A preview keeps every character but control characters, and of those the line
/// feed, in order, up to the first four hundred.
pub proof fn a_preview_keeps_what_can_be_seen(s: Seq<char>, c: char)
    ensures
        c == '\n' || '\u{20}' <= c <= '\u{7e}' || '\u{a0}' <= c ==> previewed(c),
        c != '\n' && (c <= '\u{1f}' || '\u{7f}' <= c <= '\u{9f}') ==> !previewed(c),
        previewable(Seq::empty()).len() == 0,
        previewed(c) ==> previewable(s.push(c)) == previewable(s).push(c),
        !previewed(c) ==> previewable(s.push(c)) == previewable(s),
        previewable(s).len() <= 400 ==> preview_text(s) == previewable(s),
        previewable(s).len() > 400 ==> preview_text(s).len() == 400 && preview_text(s)
            == previewable(s).take(400),
{
    assert(s.push(c).drop_last() =~= s);
    assert(s.push(c).last() == c);
}

/// The question names the number of lines.
pub proof fn the_question_counts_the_lines(s: Seq<char>)
    ensures
        question(s) == "This paste contains "@ + text::decimal(line_count(s))
            + " lines and may run commands as soon as it lands."@,
{
}

/// A paste that waits is sent whole where it is agreed to, dropped where it is
/// not, even if both are said, and else goes on waiting; without one there is
/// nothing to answer.
pub proof fn a_waiting_paste_is_answered(p: &mut PendingPaste, yes: bool, no: bool, r: PasteAnswer)
    requires
        call_ensures(PendingPaste::answer, (p, yes, no), r),
    ensures
        old(p)@.text is None ==> r is Nothing && final(p)@ == old(p)@,
        old(p)@.text is Some && no ==> r is Cancelled,
        old(p)@.text is Some && yes && !no ==> (r matches PasteAnswer::Send(s) && Some(s@)
            == old(p)@.text),
        old(p)@.text is Some && (yes || no) ==> final(p)@.text is None && final(p)@.reason is None,
        old(p)@.text is Some && !yes && !no ==> r is Asking && final(p)@ == old(p)@,
{
}

/// A confirmed paste is handed over once.
pub proof fn a_confirmed_paste_is_sent_once(
    p: &mut PendingPaste,
    q: &mut PendingPaste,
    r: Option<String>,
    again: Option<String>,
)
    requires
        call_ensures(PendingPaste::confirm_pending_paste, (p,), r),
        call_ensures(PendingPaste::confirm_pending_paste, (q,), again),
        old(q)@ == final(p)@,
    ensures
        text::opt_text(r) == old(p)@.text,
        final(p)@.text is None,
        again is None,
        r is None ==> final(p)@ == old(p)@,
{
}

} // verus!
