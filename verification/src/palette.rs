//! The command palette, the history sidebar and the commands they run again.

use crate::actions;
use crate::actions::{Action, EntryView, PaletteEntry, ACTION_COUNT};
use crate::text;
use crate::text::{chars_of, copy_texts, same_text, skip_blank, string_of, trim};
use vstd::prelude::*;

verus! {

/// Action `a` ranks before action `b`: it scores higher, or the same and comes
/// first in the list.
pub open spec fn ranks_before(scores: Seq<Option<i32>>, a: int, b: int) -> bool {
    scores[a]->0 > scores[b]->0 || (scores[a]->0 == scores[b]->0 && a < b)
}

/// `rank` lists the places with a score, best first.
pub open spec fn ranking(scores: Seq<Option<i32>>, rank: Seq<usize>) -> bool {
    &&& forall|k: int| 0 <= k < rank.len() ==> (#[trigger] rank[k]) < scores.len() && scores[rank[k] as int] is Some
    &&& forall|i: int|
        0 <= i < scores.len() && (#[trigger] scores[i]) is Some ==> listed(rank, i)
    &&& forall|k: int, l: int|
        0 <= k < l < rank.len() ==> ranks_before(
            scores,
            (#[trigger] rank[k]) as int,
            (#[trigger] rank[l]) as int,
        )
}

/// Place `i` is in the ranking.
pub open spec fn listed(rank: Seq<usize>, i: int) -> bool {
    exists|k: int| 0 <= k < rank.len() && (#[trigger] rank[k]) == i
}

/// The places with a score, best first and in order where they score the same.
#[verifier::spinoff_prover]
#[verifier::rlimit(50)]
pub fn rank_scores(scores: &Vec<Option<i32>>) -> (r: Vec<usize>)
    ensures
        ranking(scores@, r@),
{
    let mut out: Vec<usize> = Vec::new();
    let mut i: usize = 0;
    while i < scores.len()
        invariant
            i <= scores.len(),
            forall|k: int| 0 <= k < out@.len() ==> (#[trigger] out@[k]) < i && scores@[out@[k] as int] is Some,
            forall|j: int| 0 <= j < i && (#[trigger] scores@[j]) is Some ==> listed(out@, j),
            forall|k: int, l: int|
                0 <= k < l < out@.len() ==> ranks_before(
                    scores@,
                    (#[trigger] out@[k]) as int,
                    (#[trigger] out@[l]) as int,
                ),
        decreases scores.len() - i,
    {
        if let Some(s) = scores[i] {
            let mut at: usize = 0;
            while at < out.len() && scores[out[at]].is_some() && scores[out[at]].unwrap() >= s
                invariant
                    at <= out.len(),
                    i < scores.len(),
                    scores@[i as int] == Some(s),
                    forall|k: int|
                        0 <= k < out@.len() ==> (#[trigger] out@[k]) < i && scores@[out@[k] as int] is Some,
                    forall|k: int| 0 <= k < at ==> scores@[(#[trigger] out@[k]) as int]->0 >= s,
                decreases out.len() - at,
            {
                at += 1;
            }
            let ghost before = out@;
            out.insert(at, i);
            proof {
                assert(out@ =~= before.insert(at as int, i));
                assert forall|j: int| 0 <= j < i + 1 && (#[trigger] scores@[j]) is Some implies listed(
                    out@,
                    j,
                ) by {
                    if j == i {
                        assert(out@[at as int] == j);
                    } else {
                        assert(listed(before, j));
                        let k = choose|k: int| 0 <= k < before.len() && (#[trigger] before[k]) == j;
                        if k < at {
                            assert(out@[k] == j);
                        } else {
                            assert(out@[k + 1] == j);
                        }
                    }
                }
                assert forall|k: int, l: int| 0 <= k < l < out@.len() implies ranks_before(
                    scores@,
                    (#[trigger] out@[k]) as int,
                    (#[trigger] out@[l]) as int,
                ) by {
                    let a = if k < at {
                        k
                    } else {
                        k - 1
                    };
                    let b = if l < at {
                        l
                    } else {
                        l - 1
                    };
                    if k != at {
                        assert(out@[k] == before[a]);
                    }
                    if l != at {
                        assert(out@[l] == before[b]);
                    }
                    if k == at {
                        // Everything from `at` on scores below the new entry.
                        assert(scores@[before[at as int] as int]->0 < s);
                        if b > at {
                            assert(ranks_before(
                                scores@,
                                before[at as int] as int,
                                before[b] as int,
                            ));
                        }
                    } else if l == at {
                        assert(scores@[before[a] as int]->0 >= s);
                    } else {
                        assert(ranks_before(scores@, before[a] as int, before[b] as int));
                    }
                }
            }
        }
        i += 1;
    }
    out
}

/// Two rankings of the same scores list the same place at each rank they both
/// have.
proof fn lemma_same_rank(scores: Seq<Option<i32>>, a: Seq<usize>, b: Seq<usize>, k: int)
    requires
        ranking(scores, a),
        ranking(scores, b),
        0 <= k < a.len(),
        0 <= k < b.len(),
    ensures
        a[k] == b[k],
    decreases k,
{
    assert forall|j: int| 0 <= j < k implies a[j] == b[j] by {
        lemma_same_rank(scores, a, b, j);
    }
    if a[k] != b[k] {
        assert(scores[a[k] as int] is Some && scores[b[k] as int] is Some);
        assert(listed(b, a[k] as int));
        assert(listed(a, b[k] as int));
        let l = choose|l: int| 0 <= l < b.len() && (#[trigger] b[l]) == a[k] as int;
        let m = choose|m: int| 0 <= m < a.len() && (#[trigger] a[m]) == b[k] as int;
        if l < k {
            assert(a[l] == b[l]);
            assert(ranks_before(scores, a[l] as int, a[k] as int));
        } else if m < k {
            assert(a[m] == b[m]);
            assert(ranks_before(scores, b[m] as int, b[k] as int));
        } else {
            assert(ranks_before(scores, b[k] as int, b[l] as int));
            assert(ranks_before(scores, a[k] as int, a[m] as int));
        }
    }
}

/// A ranking that agrees with another as far as it goes is not shorter.
proof fn lemma_not_shorter(scores: Seq<Option<i32>>, a: Seq<usize>, b: Seq<usize>)
    requires
        ranking(scores, a),
        ranking(scores, b),
    ensures
        a.len() >= b.len(),
{
    if a.len() < b.len() {
        let n = a.len() as int;
        assert(scores[b[n] as int] is Some);
        assert(listed(a, b[n] as int));
        let m = choose|m: int| 0 <= m < a.len() && (#[trigger] a[m]) == b[n] as int;
        lemma_same_rank(scores, a, b, m);
        assert(ranks_before(scores, b[m] as int, b[n] as int));
    }
}

/// The order of the matches is fixed by the scores.
pub proof fn the_ranking_is_unique(scores: Seq<Option<i32>>, a: Seq<usize>, b: Seq<usize>)
    requires
        ranking(scores, a),
        ranking(scores, b),
    ensures
        a == b,
{
    lemma_not_shorter(scores, a, b);
    lemma_not_shorter(scores, b, a);
    assert forall|k: int| 0 <= k < a.len() implies a[k] == b[k] by {
        lemma_same_rank(scores, a, b, k);
    }
    assert(a =~= b);
}

/// Where every action scores the same, as for an empty query, all are listed in
/// their own order.
pub proof fn equal_scores_keep_the_order(scores: Seq<Option<i32>>, rank: Seq<usize>, s: i32, k: int)
    requires
        ranking(scores, rank),
        forall|i: int| 0 <= i < scores.len() ==> (#[trigger] scores[i]) == Some(s),
        0 <= k < scores.len(),
    ensures
        k < rank.len(),
        rank[k] == k,
    decreases k,
{
    assert forall|j: int| 0 <= j < k implies j < rank.len() && #[trigger] rank[j] == j by {
        equal_scores_keep_the_order(scores, rank, s, j);
    }
    assert(scores[k] is Some);
    assert(listed(rank, k));
    let l = choose|l: int| 0 <= l < rank.len() && (#[trigger] rank[l]) == k;
    if l < k {
        assert(rank[l] == l);
    }
    if l > k {
        assert(ranks_before(scores, rank[k] as int, rank[l] as int));
        if k > 0 {
            assert(rank[k - 1] == k - 1);
            assert(ranks_before(scores, rank[k - 1] as int, rank[k] as int));
        }
    }
}

/// The actions of a ranking.
pub open spec fn ranked_actions(rank: Seq<usize>) -> Seq<Action> {
    rank.map_values(|i: usize| actions::all_actions()[i as int])
}

/// The actions that match, best first. `scores` holds the score of every action
/// in the order of the list, none where it does not match.
pub fn matching_actions(scores: &Vec<Option<i32>>) -> (r: Vec<Action>)
    requires
        scores@.len() == ACTION_COUNT,
    ensures
        exists|rank: Seq<usize>| #[trigger]
            ranking(scores@, rank) && r@ == ranked_actions(rank),
{
    let all = Action::all();
    let rank = rank_scores(scores);
    let mut out: Vec<Action> = Vec::new();
    let mut i: usize = 0;
    while i < rank.len()
        invariant
            i <= rank.len(),
            all@ == actions::all_actions(),
            scores@.len() == ACTION_COUNT,
            ranking(scores@, rank@),
            out@ == ranked_actions(rank@.take(i as int)),
        decreases rank.len() - i,
    {
        assert(rank@[i as int] < scores@.len());
        out.push(all[rank[i]]);
        assert(out@ =~= ranked_actions(rank@.take(i + 1)));
        i += 1;
    }
    assert(rank@.take(rank@.len() as int) =~= rank@);
    out
}

/// What is asked of the actions alone: the query behind a `>`, if it starts with
/// one.
pub open spec fn actions_only(query: Seq<char>) -> Option<Seq<char>> {
    let q = text::trimmed_start(query);
    if q.len() > 0 && q[0] == '>' {
        Some(text::trimmed_start(q.skip(1)))
    } else {
        None
    }
}

/// What is asked of the actions alone, if the query asks for them alone.
pub fn actions_only_query(query: &str) -> (r: Option<String>)
    ensures
        text::opt_text(r) == actions_only(query@),
{
    let cs = chars_of(query);
    let at = skip_blank(&cs);
    let ghost q = text::trimmed_start(query@);
    if at < cs.len() && cs[at] == '>' {
        assert(q[0] == '>');
        let rest = string_of(&cs, at + 1, cs.len());
        assert(rest@ =~= q.skip(1));
        let rs = chars_of(rest.as_str());
        let from = skip_blank(&rs);
        let r = string_of(&rs, from, rs.len());
        assert(r@ =~= text::trimmed_start(rest@));
        Some(r)
    } else {
        assert(at < cs@.len() ==> q[0] == cs@[at as int]);
        None
    }
}

/// The views of a list of rows.
pub open spec fn entry_views(rows: Seq<PaletteEntry>) -> Seq<EntryView> {
    rows.map_values(|e: PaletteEntry| e@)
}

/// The rows of the palette: commands that were run before, and then actions;
/// actions alone where the query asks for them alone.
pub open spec fn palette_rows(
    query: Seq<char>,
    hits: Seq<Seq<char>>,
    found: Seq<Action>,
) -> Seq<EntryView> {
    let of_actions = found.map_values(|a: Action| EntryView::Action(a));
    if actions_only(query) is Some {
        of_actions
    } else {
        hits.map_values(|c: Seq<char>| EntryView::History(c)) + of_actions
    }
}

/// A query that starts with `>` lists actions alone, whatever commands match.
pub proof fn the_mark_lists_actions_alone(
    query: Seq<char>,
    hits: Seq<Seq<char>>,
    found: Seq<Action>,
    i: int,
)
    requires
        text::trimmed_start(query).len() > 0,
        text::trimmed_start(query)[0] == '>',
        0 <= i < palette_rows(query, hits, found).len(),
    ensures
        palette_rows(query, hits, found)[i] == EntryView::Action(found[i]),
        palette_rows(query, hits, found).len() == found.len(),
{
}

/// The rows of the palette, from the commands and the actions that match.
pub fn palette_results(query: &str, hits: &Vec<String>, found: &Vec<Action>) -> (r: Vec<
    PaletteEntry,
>)
    ensures
        entry_views(r@) == palette_rows(query@, text::texts(hits@), found@),
{
    let mut out: Vec<PaletteEntry> = Vec::new();
    let ghost of_hits = text::texts(hits@).map_values(|c: Seq<char>| EntryView::History(c));
    let ghost of_actions = found@.map_values(|a: Action| EntryView::Action(a));
    let only = actions_only_query(query).is_some();
    let mut i: usize = 0;
    if !only {
        while i < hits.len()
            invariant
                i <= hits.len(),
                of_hits == text::texts(hits@).map_values(|c: Seq<char>| EntryView::History(c)),
                entry_views(out@) == of_hits.take(i as int),
            decreases hits.len() - i,
        {
            let ghost before = out@;
            let e = PaletteEntry::History(hits[i].clone());
            out.push(e);
            assert(entry_views(out@) =~= entry_views(before).push(e@));
            assert(of_hits[i as int] == e@);
            assert(entry_views(out@) =~= of_hits.take(i + 1));
            i += 1;
        }
    }
    let ghost first = if only {
        Seq::empty()
    } else {
        of_hits
    };
    assert(entry_views(out@) =~= first);
    let mut j: usize = 0;
    while j < found.len()
        invariant
            j <= found.len(),
            of_actions == found@.map_values(|a: Action| EntryView::Action(a)),
            entry_views(out@) == first + of_actions.take(j as int),
        decreases found.len() - j,
    {
        let ghost before = out@;
        let e = PaletteEntry::Action(found[j]);
        out.push(e);
        assert(entry_views(out@) =~= entry_views(before).push(e@));
        assert(of_actions[j as int] == e@);
        assert(entry_views(out@) =~= first + of_actions.take(j + 1));
        j += 1;
    }
    assert(first + of_actions.take(found@.len() as int) =~= palette_rows(
        query@,
        text::texts(hits@),
        found@,
    ));
    out
}

/// The selected row after a move by `delta` in a list of `n` rows.
pub open spec fn moved(sel: int, delta: int, n: int) -> int {
    if n == 0 || sel + delta < 0 {
        0
    } else if sel + delta > n - 1 {
        n - 1
    } else {
        sel + delta
    }
}

/// What the palette says where it has no rows.
pub open spec fn empty_palette_text(history_empty: bool) -> Seq<char> {
    if history_empty {
        "No matches — type > to list every action."@
    } else {
        "No matches."@
    }
}

/// What the palette says where it has no rows.
pub fn empty_palette_hint(history_empty: bool) -> (r: &'static str)
    ensures
        r@ == empty_palette_text(history_empty),
{
    if history_empty {
        "No matches — type > to list every action."
    } else {
        "No matches."
    }
}

/// What the history sidebar says where it has no rows.
pub open spec fn empty_sidebar_text(history_empty: bool) -> Seq<char> {
    if history_empty {
        "No commands run yet."@
    } else {
        "No matches."@
    }
}

/// What the history sidebar says where it has no rows.
pub fn empty_sidebar_hint(history_empty: bool) -> (r: &'static str)
    ensures
        r@ == empty_sidebar_text(history_empty),
{
    if history_empty {
        "No commands run yet."
    } else {
        "No matches."
    }
}

/// The commands but for one.
pub open spec fn without_command(cmds: Seq<Seq<char>>, cmd: Seq<char>) -> Seq<Seq<char>>
    decreases cmds.len(),
{
    if cmds.len() == 0 {
        cmds
    } else if cmds.last() == cmd {
        without_command(cmds.drop_last(), cmd)
    } else {
        without_command(cmds.drop_last(), cmd).push(cmds.last())
    }
}

/// The history after a command was run: it comes first, and nowhere else.
pub open spec fn recorded(cmds: Seq<Seq<char>>, cmd: Seq<char>) -> Seq<Seq<char>> {
    seq![cmd] + without_command(cmds, cmd)
}

/// What is left holds the other commands and no more, and none twice that was
/// not there twice.
proof fn lemma_without_command(cmds: Seq<Seq<char>>, cmd: Seq<char>)
    ensures
        forall|c: Seq<char>| #[trigger]
            without_command(cmds, cmd).contains(c) <==> cmds.contains(c) && c != cmd,
        cmds.no_duplicates() ==> without_command(cmds, cmd).no_duplicates(),
    decreases cmds.len(),
{
    if cmds.len() > 0 {
        let rest = cmds.drop_last();
        let left = without_command(rest, cmd);
        let out = without_command(cmds, cmd);
        lemma_without_command(rest, cmd);
        assert forall|c: Seq<char>| #[trigger]
            out.contains(c) <==> cmds.contains(c) && c != cmd by {
            assert(cmds.contains(c) <==> rest.contains(c) || c == cmds.last()) by {
                if rest.contains(c) {
                    assert(cmds[rest.index_of(c)] == c);
                }
                assert(cmds[cmds.len() - 1] == cmds.last());
                if cmds.contains(c) && c != cmds.last() {
                    assert(rest[cmds.index_of(c)] == c);
                }
            }
            if cmds.last() != cmd {
                if left.contains(c) {
                    assert(out[left.index_of(c)] == c);
                }
                assert(out[left.len() as int] == cmds.last());
                if out.contains(c) && c != cmds.last() {
                    assert(left[out.index_of(c)] == c);
                }
            }
        }
        if cmds.no_duplicates() && cmds.last() != cmd {
            assert(!rest.contains(cmds.last())) by {
                if rest.contains(cmds.last()) {
                    assert(cmds[rest.index_of(cmds.last())] == cmds[cmds.len() - 1]);
                }
            }
            assert(!left.contains(cmds.last()));
            assert forall|i: int, j: int|
                0 <= i < out.len() && 0 <= j < out.len() && i != j implies out[i] != out[j] by {
                if i == left.len() {
                    assert(left.contains(left[j]));
                } else if j == left.len() {
                    assert(left.contains(left[i]));
                }
            }
        }
    }
}

/// A command that is run again moves to the front: the history names it first,
/// names it once, and keeps every other command.
pub proof fn the_latest_command_comes_first(cmds: Seq<Seq<char>>, cmd: Seq<char>)
    ensures
        recorded(cmds, cmd)[0] == cmd,
        forall|c: Seq<char>|
            c != cmd ==> (#[trigger] recorded(cmds, cmd).contains(c) <==> cmds.contains(c)),
        cmds.no_duplicates() ==> recorded(cmds, cmd).no_duplicates(),
{
    lemma_without_command(cmds, cmd);
    let left = without_command(cmds, cmd);
    let out = recorded(cmds, cmd);
    assert forall|c: Seq<char>| c != cmd implies (#[trigger] out.contains(c) <==> cmds.contains(
        c,
    )) by {
        if left.contains(c) {
            assert(out[left.index_of(c) + 1] == c);
        }
        if out.contains(c) {
            assert(left[out.index_of(c) - 1] == c);
        }
    }
    if cmds.no_duplicates() {
        assert forall|i: int, j: int|
            0 <= i < out.len() && 0 <= j < out.len() && i != j implies out[i] != out[j] by {
            if i == 0 {
                assert(left.contains(left[j - 1]));
            } else if j == 0 {
                assert(left.contains(left[i - 1]));
            } else {
                assert(left[i - 1] != left[j - 1]);
            }
        }
    }
}

/// The commands that were run, the latest first.
#[derive(Debug, PartialEq, Eq)]
pub struct CommandHistory {
    pub cmds: Vec<String>,
}

impl View for CommandHistory {
    type V = Seq<Seq<char>>;

    open spec fn view(&self) -> Seq<Seq<char>> {
        text::texts(self.cmds@)
    }
}

impl CommandHistory {
    /// Nothing was run yet.
    pub fn new() -> (r: CommandHistory)
        ensures
            r@ == Seq::<Seq<char>>::empty(),
    {
        let r = CommandHistory { cmds: Vec::new() };
        assert(r@ =~= Seq::empty());
        r
    }

    /// Record a command that was run.
    pub fn record(&mut self, cmd: &str)
        ensures
            final(self)@ == recorded(old(self)@, cmd@),
    {
        let mut out: Vec<String> = Vec::new();
        out.push(cmd.to_owned());
        let ghost all = self@;
        let mut i: usize = 0;
        assert(text::texts(out@) =~= seq![cmd@] + without_command(all.take(0), cmd@));
        while i < self.cmds.len()
            invariant
                i <= self.cmds.len(),
                all == self@,
                self@ == old(self)@,
                text::texts(out@) == seq![cmd@] + without_command(all.take(i as int), cmd@),
            decreases self.cmds.len() - i,
        {
            assert(all.take(i + 1).drop_last() =~= all.take(i as int));
            assert(all.take(i + 1).last() == self.cmds@[i as int]@);
            if !same_text(self.cmds[i].as_str(), cmd) {
                let ghost before = out@;
                let c = self.cmds[i].clone();
                out.push(c);
                assert(text::texts(out@) =~= text::texts(before).push(c@));
                assert(text::texts(out@) =~= seq![cmd@] + without_command(all.take(i + 1), cmd@));
            }
            i += 1;
        }
        assert(all.take(self.cmds@.len() as int) =~= all);
        self.cmds = out;
    }

    /// Forget every command.
    pub fn clear(&mut self)
        ensures
            final(self)@ == Seq::<Seq<char>>::empty(),
    {
        self.cmds = Vec::new();
        assert(self@ =~= Seq::empty());
    }
}

/// The palette and the history sidebar.
#[derive(Debug, PartialEq, Eq)]
pub struct Palette {
    pub palette_open: bool,
    pub palette_query: String,
    pub palette_sel: usize,
    pub history_open: bool,
    pub history_filter: String,
    pub incognito: bool,
    pub cmd_history: CommandHistory,
    /// The command last run from one of the lists.
    pub last_palette_run: Option<String>,
    /// The action last run from the palette.
    pub last_palette_action: Option<Action>,
}

/// The view of the palette and the history sidebar.
pub struct PaletteView {
    pub open: bool,
    pub query: Seq<char>,
    pub sel: int,
    pub history_open: bool,
    pub filter: Seq<char>,
    pub incognito: bool,
    pub history: Seq<Seq<char>>,
    pub last_run: Option<Seq<char>>,
    pub last_action: Option<Action>,
}

impl View for Palette {
    type V = PaletteView;

    open spec fn view(&self) -> PaletteView {
        PaletteView {
            open: self.palette_open,
            query: self.palette_query@,
            sel: self.palette_sel as int,
            history_open: self.history_open,
            filter: self.history_filter@,
            incognito: self.incognito,
            history: self.cmd_history@,
            last_run: text::opt_text(self.last_palette_run),
            last_action: self.last_palette_action,
        }
    }
}

/// The palette and the sidebar at the start: closed and empty.
pub open spec fn first_palette() -> PaletteView {
    PaletteView {
        open: false,
        query: Seq::empty(),
        sel: 0,
        history_open: false,
        filter: Seq::empty(),
        incognito: false,
        history: Seq::empty(),
        last_run: None,
        last_action: None,
    }
}

/// The palette after it was asked to open or close: it opens fresh.
pub open spec fn palette_toggled(v: PaletteView) -> PaletteView {
    if v.open {
        PaletteView { open: false, ..v }
    } else {
        PaletteView { open: true, query: Seq::empty(), sel: 0, ..v }
    }
}

/// The palette after the selected row was run: closed, and with a note of what
/// ran. `kept` is what the history keeps of a command.
pub open spec fn after_run(
    v: PaletteView,
    row: Option<EntryView>,
    kept: Seq<char>,
) -> PaletteView {
    match row {
        Some(EntryView::History(cmd)) => PaletteView {
            open: false,
            history: recorded(v.history, kept),
            last_run: Some(cmd),
            ..v
        },
        Some(EntryView::Action(a)) => PaletteView {
            open: false,
            last_run: None,
            last_action: Some(a),
            ..v
        },
        None => PaletteView { open: false, last_run: None, ..v },
    }
}

impl Palette {
    /// The palette and the sidebar at the start.
    pub fn new() -> (r: Palette)
        ensures
            r@ == first_palette(),
    {
        let r = Palette {
            palette_open: false,
            palette_query: String::new(),
            palette_sel: 0,
            history_open: false,
            history_filter: String::new(),
            incognito: false,
            cmd_history: CommandHistory::new(),
            last_palette_run: None,
            last_palette_action: None,
        };
        assert(r@.query =~= Seq::empty());
        assert(r@.filter =~= Seq::empty());
        r
    }

    /// Open the palette, or close it.
    pub fn toggle_palette(&mut self)
        ensures
            final(self)@ == palette_toggled(old(self)@),
    {
        self.palette_open = !self.palette_open;
        if self.palette_open {
            self.palette_query = String::new();
            assert(self.palette_query@ =~= Seq::empty());
            self.palette_sel = 0;
        }
    }

    /// Move the selection in a list of `n` rows.
    pub fn palette_move(&mut self, delta: i64, n: usize)
        ensures
            final(self)@ == (PaletteView {
                sel: moved(old(self)@.sel, delta as int, n as int),
                ..old(self)@
            }),
    {
        if n == 0 {
            self.palette_sel = 0;
            return ;
        }
        let max: i128 = n as i128 - 1;
        let to: i128 = self.palette_sel as i128 + delta as i128;
        self.palette_sel = if to < 0 {
            0
        } else if to > max {
            n - 1
        } else {
            to as usize
        };
    }

    /// Keep the selection within a list of `n` rows.
    pub fn clamp_selection(&mut self, n: usize)
        ensures
            final(self)@ == (PaletteView { sel: kept_row(old(self)@.sel, n as int), ..old(self)@ }),
    {
        if self.palette_sel >= n {
            self.palette_sel = if n == 0 {
                0
            } else {
                n - 1
            };
        }
    }

    /// Note that the selected row was run, and close the palette. `kept` is
    /// what the history keeps of a command.
    pub fn note_run(&mut self, row: &Option<PaletteEntry>, kept: &str)
        ensures
            final(self)@ == after_run(
                old(self)@,
                match *row {
                    Some(e) => Some(e@),
                    None => None,
                },
                kept@,
            ),
    {
        match row {
            Some(PaletteEntry::History(cmd)) => {
                self.cmd_history.record(kept);
                self.last_palette_run = Some(cmd.clone());
            },
            Some(PaletteEntry::Action(action)) => {
                self.last_palette_run = None;
                self.last_palette_action = Some(*action);
            },
            None => {
                self.last_palette_run = None;
            },
        }
        self.palette_open = false;
    }

    /// Open the history sidebar with an empty filter, or close it.
    pub fn toggle_history_sidebar(&mut self)
        ensures
            final(self)@ == sidebar_toggled(old(self)@),
    {
        self.history_open = !self.history_open;
        if self.history_open {
            self.history_filter = String::new();
            assert(self.history_filter@ =~= Seq::empty());
        }
    }

    /// Note that a row of the sidebar was run, and close the sidebar. `kept` is
    /// what the history keeps of it.
    pub fn note_history_run(&mut self, cmd: &str, kept: &str)
        ensures
            final(self)@ == (PaletteView {
                history: recorded(old(self)@.history, kept@),
                last_run: Some(cmd@),
                history_open: false,
                ..old(self)@
            }),
    {
        self.cmd_history.record(kept);
        self.last_palette_run = Some(cmd.to_owned());
        self.history_open = false;
    }

    /// The rows of the sidebar: every command where the filter is blank, else
    /// those that match it.
    pub fn history_sidebar_rows(&self, hits: &Vec<String>) -> (r: Vec<String>)
        ensures
            text::texts(r@) == sidebar_rows(self@, text::texts(hits@)),
    {
        let f = trim(self.history_filter.as_str());
        if f.as_str().is_empty() {
            copy_texts(&self.cmd_history.cmds)
        } else {
            copy_texts(hits)
        }
    }

    /// Turn incognito on or off. Turning it on forgets the history.
    pub fn set_incognito(&mut self, on: bool)
        ensures
            final(self)@ == incognito_turned(old(self)@, on),
    {
        self.incognito = on;
        if on {
            self.cmd_history.clear();
        }
    }
}

/// The rows of the sidebar.
pub open spec fn sidebar_rows(v: PaletteView, hits: Seq<Seq<char>>) -> Seq<Seq<char>> {
    if text::trimmed(v.filter).len() == 0 {
        v.history
    } else {
        hits
    }
}

/// The best match comes first: one that scores higher stands before one that
/// scores lower, those that score the same stand as in the list, and exactly the
/// places with a score are there.
pub proof fn better_matches_come_first(scores: Seq<Option<i32>>, rank: Seq<usize>, k: int, l: int)
    requires
        ranking(scores, rank),
        0 <= k < l < rank.len(),
    ensures
        rank[k] < scores.len() && rank[l] < scores.len(),
        scores[rank[k] as int] is Some && scores[rank[l] as int] is Some,
        scores[rank[k] as int]->0 >= scores[rank[l] as int]->0,
        scores[rank[k] as int]->0 == scores[rank[l] as int]->0 ==> rank[k] < rank[l],
        forall|i: int|
            0 <= i < scores.len() && (#[trigger] scores[i]) is Some ==> exists|j: int|
                0 <= j < rank.len() && #[trigger] rank[j] == i,
{
    assert(ranks_before(scores, rank[k] as int, rank[l] as int));
    assert forall|i: int| 0 <= i < scores.len() && (#[trigger] scores[i]) is Some implies exists|
        j: int,
    | 0 <= j < rank.len() && #[trigger] rank[j] == i by {
        assert(listed(rank, i));
    }
}

/// The action at a rank is the one in the place that is ranked there.
pub proof fn ranked_actions_are_the_ranked_ones(rank: Seq<usize>, k: int)
    requires
        0 <= k < rank.len(),
    ensures
        ranked_actions(rank).len() == rank.len(),
        ranked_actions(rank)[k] == actions::all_actions()[rank[k] as int],
{
}

/// A query asks for the actions alone exactly where its first character that is
/// not white space is `>`; what it asks of them is what follows the mark and the
/// white space behind it.
pub proof fn the_mark_asks_for_actions(query: Seq<char>, rest: Seq<char>)
    ensures
        actions_only(seq!['>']) == Some(Seq::<char>::empty()),
        rest.len() > 0 && !text::whitespace(rest[0]) ==> actions_only(seq!['>'] + rest) == Some(
            rest,
        ) && actions_only(seq!['>', ' '] + rest) == Some(rest) && actions_only(
            seq![' ', '>'] + rest,
        ) == Some(rest),
        query.len() == 0 ==> actions_only(query) is None,
        query.len() > 0 && query[0] != '>' && !text::whitespace(query[0]) ==> actions_only(
            query,
        ) is None,
{
    text::white_space_is_blank('>');
    reveal_with_fuel(text::trimmed_start, 3);
    let m = seq!['>'];
    assert(m[0] == '>');
    assert(m.skip(1) =~= Seq::empty());
    if rest.len() > 0 && !text::whitespace(rest[0]) {
        let a = m + rest;
        assert(a[0] == '>');
        assert(a.skip(1) =~= rest);
        let b = seq!['>', ' '] + rest;
        assert(b[0] == '>');
        assert(b.skip(1)[0] == ' ');
        assert(b.skip(1).drop_first() =~= rest);
        let c = seq![' ', '>'] + rest;
        assert(c[0] == ' ');
        assert(c.drop_first() =~= a);
    }
}

/// Without the mark the commands that were run before come first, each for
/// itself, and the actions after them.
pub proof fn commands_come_before_actions(
    query: Seq<char>,
    hits: Seq<Seq<char>>,
    found: Seq<Action>,
    i: int,
)
    requires
        actions_only(query) is None,
        0 <= i < hits.len() + found.len(),
    ensures
        palette_rows(query, hits, found).len() == hits.len() + found.len(),
        i < hits.len() ==> palette_rows(query, hits, found)[i] == EntryView::History(hits[i]),
        i >= hits.len() ==> palette_rows(query, hits, found)[i] == EntryView::Action(
            found[i - hits.len()],
        ),
{
}

/// The selection moves by what it is told to, and stops at the first row and at
/// the last.
pub proof fn the_selection_stops_at_the_ends(sel: int, delta: int, n: int)
    requires
        0 <= n,
    ensures
        n > 0 ==> 0 <= moved(sel, delta, n) < n,
        moved(sel, delta, 0) == 0,
        0 <= sel + delta < n ==> moved(sel, delta, n) == sel + delta,
        n > 0 && sel + delta < 0 ==> moved(sel, delta, n) == 0,
        n > 0 && sel + delta >= n ==> moved(sel, delta, n) == n - 1,
{
}

/// Where there is nothing to show, the palette and the sidebar say so, and what
/// to do where nothing was run yet.
pub proof fn empty_lists_say_so()
    ensures
        empty_palette_text(true) == "No matches — type > to list every action."@,
        empty_palette_text(false) == "No matches."@,
        empty_sidebar_text(true) == "No commands run yet."@,
        empty_sidebar_text(false) == "No matches."@,
{
}

/// Taking a command out leaves the others as they stand: of two lists in a row
/// what is left of each, and of one command all or nothing.
pub proof fn taking_a_command_out_keeps_the_order(
    a: Seq<Seq<char>>,
    b: Seq<Seq<char>>,
    cmd: Seq<char>,
    c: Seq<char>,
)
    ensures
        without_command(a + b, cmd) == without_command(a, cmd) + without_command(b, cmd),
        without_command(seq![cmd], cmd).len() == 0,
        c != cmd ==> without_command(seq![c], cmd) == seq![c],
        recorded(a, cmd) == seq![cmd] + without_command(a, cmd),
    decreases b.len(),
{
    reveal_with_fuel(without_command, 2);
    assert(seq![cmd].drop_last() =~= Seq::empty());
    assert(seq![c].drop_last() =~= Seq::empty());
    assert(seq![cmd].last() == cmd && seq![c].last() == c);
    assert(Seq::<Seq<char>>::empty().push(c) =~= seq![c]);
    if b.len() == 0 {
        assert(a + b =~= a);
        assert(without_command(a, cmd) + without_command(b, cmd) =~= without_command(a, cmd));
    } else {
        taking_a_command_out_keeps_the_order(a, b.drop_last(), cmd, c);
        assert((a + b).drop_last() =~= a + b.drop_last());
        assert((a + b).last() == b.last());
        assert(without_command(a + b, cmd) =~= without_command(a, cmd) + without_command(b, cmd));
    }
}

/// Opening and closing the palette changes nothing but what opens fresh: the
/// sidebar, the history and the notes of what ran stay.
pub proof fn opening_the_palette_touches_nothing_else(v: PaletteView)
    ensures
        palette_toggled(v).open == !v.open,
        palette_toggled(v).history == v.history,
        palette_toggled(v).history_open == v.history_open,
        palette_toggled(v).filter == v.filter,
        palette_toggled(v).incognito == v.incognito,
        palette_toggled(v).last_run == v.last_run,
        palette_toggled(v).last_action == v.last_action,
        v.open ==> palette_toggled(v).query == v.query && palette_toggled(v).sel == v.sel,
        !v.open ==> palette_toggled(v).query.len() == 0 && palette_toggled(v).sel == 0,
{
}

/// Running a row closes the palette and notes what ran: a command goes into the
/// history, an action does not.
pub proof fn running_a_row_is_noted(v: PaletteView, cmd: Seq<char>, a: Action, kept: Seq<char>)
    ensures
        ({
            let h = after_run(v, Some(EntryView::History(cmd)), kept);
            let r = after_run(v, Some(EntryView::Action(a)), kept);
            let n = after_run(v, None, kept);
            &&& !h.open && !r.open && !n.open
            &&& h.last_run == Some(cmd) && h.history.len() > 0 && h.history[0] == kept
            &&& h.last_action == v.last_action
            &&& r.last_run is None && r.last_action == Some(a) && r.history == v.history
            &&& n.last_run is None && n.last_action == v.last_action && n.history == v.history
            &&& h.query == v.query && r.query == v.query && n.query == v.query
            &&& h.sel == v.sel && r.sel == v.sel && n.sel == v.sel
            &&& h.history_open == v.history_open && r.history_open == v.history_open
            &&& n.history_open == v.history_open
            &&& h.incognito == v.incognito && r.incognito == v.incognito
            &&& n.incognito == v.incognito
            &&& h.filter == v.filter && r.filter == v.filter && n.filter == v.filter
        }),
{
}

/// The sidebar lists every command where its filter is blank, and else those
/// that match it.
pub proof fn a_blank_filter_lists_everything(v: PaletteView, hits: Seq<Seq<char>>)
    ensures
        text::trimmed(v.filter).len() == 0 ==> sidebar_rows(v, hits) == v.history,
        text::trimmed(v.filter).len() > 0 ==> sidebar_rows(v, hits) == hits,
{
}

/// A session starts with the palette and the sidebar closed, nothing run, and
/// not incognito.
pub proof fn a_session_starts_with_nothing_run()
    ensures
        !first_palette().open && !first_palette().history_open && !first_palette().incognito,
        first_palette().query.len() == 0 && first_palette().filter.len() == 0,
        first_palette().sel == 0 && first_palette().history.len() == 0,
        first_palette().last_run is None && first_palette().last_action is None,
{
}

/// The selected row, kept within a list of `n` rows.
pub open spec fn kept_row(sel: int, n: int) -> int {
    if sel < n {
        sel
    } else if n == 0 {
        0
    } else {
        n - 1
    }
}

/// The palette after the history sidebar was asked to open or close.
pub open spec fn sidebar_toggled(v: PaletteView) -> PaletteView {
    if v.history_open {
        PaletteView { history_open: false, ..v }
    } else {
        PaletteView { history_open: true, filter: Seq::empty(), ..v }
    }
}

/// The palette after incognito was turned on or off.
pub open spec fn incognito_turned(v: PaletteView, on: bool) -> PaletteView {
    PaletteView {
        incognito: on,
        history: if on {
            Seq::empty()
        } else {
            v.history
        },
        ..v
    }
}

/// A selected row that is still there stays selected; past the end the last row
/// is, or the first where there is none.
pub proof fn the_selection_stays_within_the_rows(sel: int, n: int)
    requires
        0 <= sel,
        0 <= n,
    ensures
        sel < n ==> kept_row(sel, n) == sel,
        0 < n <= sel ==> kept_row(sel, n) == n - 1,
        n == 0 ==> kept_row(sel, n) == 0,
{
}

/// The sidebar opens with an empty filter, and opening and closing it touches
/// nothing else.
pub proof fn the_sidebar_opens_fresh(v: PaletteView)
    ensures
        sidebar_toggled(v).history_open == !v.history_open,
        !v.history_open ==> sidebar_toggled(v).filter.len() == 0,
        v.history_open ==> sidebar_toggled(v).filter == v.filter,
        sidebar_toggled(v) == (PaletteView {
            history_open: !v.history_open,
            filter: sidebar_toggled(v).filter,
            ..v
        }),
{
}

/// Turning incognito on forgets the history, turning it off keeps what there is;
/// nothing else changes.
pub proof fn incognito_forgets_the_history(v: PaletteView)
    ensures
        incognito_turned(v, true).incognito && incognito_turned(v, true).history.len() == 0,
        !incognito_turned(v, false).incognito && incognito_turned(v, false).history == v.history,
        incognito_turned(v, true) == (PaletteView {
            incognito: true,
            history: Seq::empty(),
            ..v
        }),
        incognito_turned(v, false) == (PaletteView { incognito: false, ..v }),
{
}

} // verus!
