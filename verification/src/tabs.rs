//! What the tabs say: the title of a pane and its label for assistive
//! technology.

use crate::grid::PaneId;
use crate::grid_interaction;
use crate::grid_interaction::scrub_display_text;
use crate::text;
use crate::text::{chars_of, decimal_of, drop_blank, same_text, skip_blank, string_of};
use vstd::prelude::*;

verus! {

/// The longest title a tab shows, in characters.
pub const MAX_TAB_TITLE: usize = 32;

/// A program's title as a tab shows it: what must not be displayed is dropped,
/// the ends are trimmed, and a long one is cut and marked with an ellipsis.
pub open spec fn capped(raw: Seq<char>) -> Seq<char> {
    let t = text::trimmed(grid_interaction::scrubbed(raw));
    if t.len() <= MAX_TAB_TITLE {
        t
    } else {
        t.take(MAX_TAB_TITLE as int).push('…')
    }
}

/// A program's title as a tab shows it.
pub fn cap_tab_title(raw: &str) -> (r: String)
    ensures
        r@ == capped(raw@),
{
    let clean = scrub_display_text(raw);
    let cs = chars_of(clean.as_str());
    let from = skip_blank(&cs);
    let to = drop_blank(&cs, from);
    let ghost t = text::trimmed(clean@);
    if to - from <= MAX_TAB_TITLE {
        string_of(&cs, from, to)
    } else {
        let mut out = string_of(&cs, from, from + MAX_TAB_TITLE);
        assert(out@ =~= t.take(MAX_TAB_TITLE as int));
        out.push('…');
        out
    }
}

/// A title never takes more than its room, and one more for the ellipsis.
pub proof fn titles_are_bounded(raw: Seq<char>)
    ensures
        capped(raw).len() <= MAX_TAB_TITLE + 1,
{
}

/// Whatever title a program sets, its tab shows no control characters, no
/// bidirectional formatting and no zero-width characters.
pub proof fn titles_hide_nothing(raw: Seq<char>, i: int)
    requires
        0 <= i < capped(raw).len(),
    ensures
        grid_interaction::displayable(capped(raw)[i]),
{
    let clean = grid_interaction::scrubbed(raw);
    let t = text::trimmed(clean);
    grid_interaction::scrubbing_is_idempotent(raw);
    if i < t.len() && i < MAX_TAB_TITLE {
        text::trimming_adds_nothing(clean, i);
        let j = clean.index_of(t[i]);
        assert(grid_interaction::displayable(clean[j]));
        assert(capped(raw)[i] == t[i]);
    } else {
        assert(capped(raw)[i] == '…');
    }
}

/// The name of a pane that has no title of its own.
pub open spec fn pane_name(pane: PaneId) -> Seq<char> {
    "pane "@ + text::decimal(pane.id as nat)
}

/// The name of a pane that has no title of its own.
pub fn name_of(pane: PaneId) -> (r: String)
    ensures
        r@ == pane_name(pane),
{
    let mut out = "pane ".to_owned();
    out.append(decimal_of(pane.id).as_str());
    out
}

/// What the tab of a pane shows: its program's title, or else its name.
pub open spec fn shown(pane: PaneId, title: Option<Seq<char>>) -> Seq<char> {
    match title {
        Some(t) => capped(t),
        None => pane_name(pane),
    }
}

/// What the tab of a pane shows.
pub fn tab_title(pane: PaneId, title: &Option<String>) -> (r: String)
    ensures
        r@ == shown(pane, text::opt_text(*title)),
{
    match title {
        Some(t) => cap_tab_title(t.as_str()),
        None => name_of(pane),
    }
}

/// The label of a tab for assistive technology: the name of the pane where the
/// tab shows just that, else what the tab shows with the pane's number after it.
pub open spec fn labelled(pane: PaneId, display: Seq<char>) -> Seq<char> {
    if display == pane_name(pane) {
        pane_name(pane)
    } else {
        display + " (pane "@ + text::decimal(pane.id as nat) + ")"@
    }
}

/// The label of a tab for assistive technology.
pub fn tab_a11y_label(pane: PaneId, display: &str) -> (r: String)
    ensures
        r@ == labelled(pane, display@),
{
    let fallback = name_of(pane);
    if same_text(display, fallback.as_str()) {
        fallback
    } else {
        let mut out = display.to_owned();
        out.append(" (pane ");
        out.append(decimal_of(pane.id).as_str());
        out.append(")");
        out
    }
}

/// A number between a blank and a last bracket can be read back.
proof fn numbers_at_the_end_agree(a: Seq<char>, m: nat, b: Seq<char>, n: nat)
    requires
        a.len() > 0,
        b.len() > 0,
        a.last() == ' ',
        b.last() == ' ',
        a + text::decimal(m) == b + text::decimal(n),
    ensures
        m == n,
{
    let x = a + text::decimal(m);
    let y = b + text::decimal(n);
    text::decimal_len(m);
    text::decimal_len(n);
    assert(x.len() == a.len() + text::decimal(m).len());
    assert(y.len() == b.len() + text::decimal(n).len());
    if a.len() < b.len() {
        assert(x[b.len() - 1] == text::decimal(m)[b.len() - 1 - a.len()]);
        assert(y[b.len() - 1] == b.last());
    } else if b.len() < a.len() {
        assert(y[a.len() - 1] == text::decimal(n)[a.len() - 1 - b.len()]);
        assert(x[a.len() - 1] == a.last());
    } else {
        assert(text::decimal(m) =~= x.skip(a.len() as int));
        assert(text::decimal(n) =~= y.skip(b.len() as int));
        text::decimal_is_injective(m, n);
    }
}

/// Two panes never share a label, whatever their programs call themselves.
pub proof fn labels_are_unique(a: PaneId, x: Seq<char>, b: PaneId, y: Seq<char>)
    requires
        a != b,
    ensures
        labelled(a, x) != labelled(b, y),
{
    reveal_strlit("pane ");
    reveal_strlit(" (pane ");
    reveal_strlit(")");
    text::decimal_len(a.id as nat);
    text::decimal_len(b.id as nat);
    let da = text::decimal(a.id as nat);
    let db = text::decimal(b.id as nat);
    if labelled(a, x) == labelled(b, y) {
        let l = labelled(a, x);
        if x == pane_name(a) && y == pane_name(b) {
            assert(l == "pane "@ + da);
            assert(l == "pane "@ + db);
            numbers_at_the_end_agree("pane "@, a.id as nat, "pane "@, b.id as nat);
        } else if x == pane_name(a) {
            assert(l.last() == da.last());
            assert(l == y + " (pane "@ + db + ")"@);
            assert(l.last() == ')');
        } else if y == pane_name(b) {
            assert(l == pane_name(b));
            assert(l.last() == db.last());
            assert(l == x + " (pane "@ + da + ")"@);
            assert(l.last() == ')');
        } else {
            assert(l.drop_last() =~= x + " (pane "@ + da);
            assert(l.drop_last() =~= y + " (pane "@ + db);
            numbers_at_the_end_agree(
                x + " (pane "@,
                a.id as nat,
                y + " (pane "@,
                b.id as nat,
            );
        }
    }
}

/// A title that may be shown and fits is shown as it is, without the white space
/// around it; a longer one is cut after its first thirty-two characters, and an
/// ellipsis says so.
pub proof fn titles_are_cut_at_their_room(raw: Seq<char>)
    ensures
        ({
            let t = text::trimmed(grid_interaction::scrubbed(raw));
            &&& t.len() <= 32 ==> capped(raw) == t
            &&& t.len() > 32 ==> capped(raw).len() == 33 && capped(raw)[32] == '…'
                && capped(raw).take(32) == t.take(32)
        }),
{
    let t = text::trimmed(grid_interaction::scrubbed(raw));
    if t.len() > 32 {
        assert(capped(raw).take(32) =~= t.take(32));
    }
}

/// A pane goes by its program's title where it has one, and by its number where
/// it has none; to assistive technology the number is always told.
pub proof fn tabs_name_their_pane(pane: PaneId, t: Seq<char>, display: Seq<char>)
    ensures
        pane_name(pane) == seq!['p', 'a', 'n', 'e', ' '] + text::decimal(pane.id as nat),
        shown(pane, None) == pane_name(pane),
        shown(pane, Some(t)) == capped(t),
        labelled(pane, pane_name(pane)) == pane_name(pane),
        display != pane_name(pane) ==> labelled(pane, display) == display + seq![
            ' ',
            '(',
            'p',
            'a',
            'n',
            'e',
            ' ',
        ] + text::decimal(pane.id as nat) + seq![')'],
{
    reveal_strlit("pane ");
    reveal_strlit(" (pane ");
    reveal_strlit(")");
    assert("pane "@ =~= seq!['p', 'a', 'n', 'e', ' ']);
    assert(" (pane "@ =~= seq![' ', '(', 'p', 'a', 'n', 'e', ' ']);
    assert(")"@ =~= seq![')']);
}

} // verus!
