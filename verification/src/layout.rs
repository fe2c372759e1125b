//! What a session keeps of its layout for the next one, and how panes of the
//! last session start again.

use crate::grid;
use crate::grid::{copied_panes, position_of, without_pane, PaneId, MAX_PANES};
use crate::pane_body::deferred_spawn_cwd;
use crate::panes;
use crate::panes::{find_term, Panes, PanesView, TermInfo, TermView};
use crate::text;
use crate::text::owned;
use crate::tree;
use crate::tree::panes_in_visual_order;
use vstd::prelude::*;

verus! {

/// A layout kept from one session to the next.
pub struct LayoutSnapshot {
    /// The tiling tree.
    pub tree: egui_tiles::Tree<u64>,
    /// The directories of the panes that reported one.
    pub cwds: Vec<(PaneId, String)>,
    /// The pane with the focus.
    pub focused: PaneId,
    /// The panes whose tabs are pinned.
    pub pinned: Vec<PaneId>,
    /// The number the next pane gets.
    pub next_id: u64,
}

/// The view of a kept layout.
pub struct SnapshotView {
    pub tree: egui_tiles::Tree<u64>,
    pub cwds: Seq<(PaneId, Seq<char>)>,
    pub focused: PaneId,
    pub pinned: Seq<PaneId>,
    pub next_id: u64,
}

impl View for LayoutSnapshot {
    type V = SnapshotView;

    open spec fn view(&self) -> SnapshotView {
        SnapshotView {
            tree: self.tree,
            cwds: panes::dir_views(self.cwds@),
            focused: self.focused,
            pinned: self.pinned@,
            next_id: self.next_id,
        }
    }
}

/// Whether a layout with this many panes can be taken up again.
pub open spec fn restorable(count: nat) -> bool {
    1 <= count <= MAX_PANES
}

/// Whether a layout with this many panes can be taken up again.
pub fn snapshot_is_restorable(count: usize) -> (r: bool)
    ensures
        r == restorable(count as nat),
{
    1 <= count && count <= MAX_PANES
}

/// The panes of `s` that are among `keep`, each once.
pub open spec fn among(s: Seq<PaneId>, keep: Seq<PaneId>) -> Seq<PaneId>
    decreases s.len(),
{
    if s.len() == 0 {
        s
    } else {
        let rest = among(s.drop_last(), keep);
        if keep.contains(s.last()) && !rest.contains(s.last()) {
            rest.push(s.last())
        } else {
            rest
        }
    }
}

/// The panes of `s` that are among `keep`, each once.
pub fn panes_among(s: &Vec<PaneId>, keep: &Vec<PaneId>) -> (r: Vec<PaneId>)
    ensures
        r@ == among(s@, keep@),
{
    let mut out: Vec<PaneId> = Vec::new();
    let mut i: usize = 0;
    while i < s.len()
        invariant
            i <= s.len(),
            out@ == among(s@.take(i as int), keep@),
        decreases s.len() - i,
    {
        assert(s@.take(i + 1).drop_last() =~= s@.take(i as int));
        if position_of(keep, s[i]).is_some() && position_of(&out, s[i]).is_none() {
            out.push(s[i]);
        }
        i += 1;
    }
    assert(s@.take(s@.len() as int) =~= s@);
    out
}

/// The directories of the panes that are among `keep`.
pub open spec fn dirs_among(
    dirs: Seq<(PaneId, Seq<char>)>,
    keep: Seq<PaneId>,
) -> Seq<(PaneId, Seq<char>)>
    decreases dirs.len(),
{
    if dirs.len() == 0 {
        dirs
    } else if keep.contains(dirs.last().0) {
        dirs_among(dirs.drop_last(), keep).push(dirs.last())
    } else {
        dirs_among(dirs.drop_last(), keep)
    }
}

/// The directories of the panes that are among `keep`.
pub fn cwds_among(dirs: &Vec<(PaneId, String)>, keep: &Vec<PaneId>) -> (r: Vec<(PaneId, String)>)
    ensures
        panes::dir_views(r@) == dirs_among(panes::dir_views(dirs@), keep@),
{
    let mut out: Vec<(PaneId, String)> = Vec::new();
    let ghost all = panes::dir_views(dirs@);
    let mut i: usize = 0;
    assert(panes::dir_views(out@) =~= all.take(0));
    while i < dirs.len()
        invariant
            i <= dirs.len(),
            all == panes::dir_views(dirs@),
            panes::dir_views(out@) == dirs_among(all.take(i as int), keep@),
        decreases dirs.len() - i,
    {
        assert(all.take(i + 1).drop_last() =~= all.take(i as int));
        assert(all.take(i + 1).last() == (dirs@[i as int].0, dirs@[i as int].1@));
        let pane = dirs[i].0;
        if position_of(keep, pane).is_some() {
            let ghost before = out@;
            let dir = owned(dirs[i].1.as_str());
            out.push((pane, dir));
            assert(panes::dir_views(out@) =~= panes::dir_views(before).push((pane, dir@)));
        }
        i += 1;
    }
    assert(all.take(dirs@.len() as int) =~= all);
    out
}

/// The next number once these panes are open: past every one of them, as far as
/// numbers go, and never back.
pub open spec fn next_after(panes: Seq<PaneId>, next: u64) -> u64
    decreases panes.len(),
{
    if panes.len() == 0 {
        next
    } else {
        let rest = next_after(panes.drop_last(), next);
        if panes.last().id < rest || panes.last().id == u64::MAX {
            rest
        } else {
            (panes.last().id + 1) as u64
        }
    }
}

/// The next number once these panes are open.
pub fn restored_next_id(panes: &Vec<PaneId>, next: u64) -> (r: u64)
    ensures
        r == next_after(panes@, next),
{
    let mut out: u64 = next;
    let mut i: usize = 0;
    assert(panes@.take(0) =~= Seq::empty());
    while i < panes.len()
        invariant
            i <= panes.len(),
            out == next_after(panes@.take(i as int), next),
        decreases panes.len() - i,
    {
        assert(panes@.take(i + 1).drop_last() =~= panes@.take(i as int));
        let id = panes[i].id;
        if id >= out && id < u64::MAX {
            out = id + 1;
        }
        i += 1;
    }
    assert(panes@.take(panes@.len() as int) =~= panes@);
    out
}

/// The next number is past every open pane, and never goes back.
pub proof fn new_panes_never_collide(panes: Seq<PaneId>, next: u64)
    requires
        forall|i: int| 0 <= i < panes.len() ==> (#[trigger] panes[i]).id < u64::MAX,
    ensures
        next <= next_after(panes, next),
        forall|i: int| 0 <= i < panes.len() ==> (#[trigger] panes[i]).id < next_after(panes, next),
    decreases panes.len(),
{
    if panes.len() > 0 {
        let rest = panes.drop_last();
        assert forall|i: int| 0 <= i < rest.len() implies (#[trigger] rest[i]).id < u64::MAX by {
            assert(rest[i] == panes[i]);
        }
        new_panes_never_collide(rest, next);
        assert forall|i: int| 0 <= i < panes.len() implies (#[trigger] panes[i]).id < next_after(
            panes,
            next,
        ) by {
            if i < rest.len() {
                assert(rest[i] == panes[i]);
            }
        }
    }
}

/// The panes after a kept layout was taken up: they are those the tree shows, in
/// its order, every pane waits for its size, the focus is where it was or else
/// on the first pane. A layout that cannot be taken up changes nothing.
pub open spec fn after_restore(v: PanesView, snap: SnapshotView) -> PanesView {
    let order = tree::listed(snap.tree);
    if !restorable(order.len()) {
        v
    } else {
        PanesView {
            tree: snap.tree,
            order,
            terms: Seq::<TermView>::empty(),
            pending: among(order, order),
            restored: dirs_among(snap.cwds, order),
            focused: panes::anchored(snap.focused, order),
            pinned: among(snap.pinned, order),
            next_id: next_after(order, snap.next_id),
            ..v
        }
    }
}

/// The directories the open panes reported, in the order of the panes.
pub open spec fn live_dirs(order: Seq<PaneId>, terms: Seq<TermView>) -> Seq<(PaneId, Seq<char>)>
    decreases order.len(),
{
    if order.len() == 0 {
        Seq::empty()
    } else {
        let rest = live_dirs(order.drop_last(), terms);
        match panes::term_of(terms, order.last()) {
            Some(t) => match t.cwd {
                Some(dir) => rest.push((order.last(), dir)),
                None => rest,
            },
            None => rest,
        }
    }
}

/// What is kept of the panes, besides the tree.
pub struct LayoutCapture {
    /// The directories of the panes that reported one.
    pub cwds: Vec<(PaneId, String)>,
    /// The pane with the focus.
    pub focused: PaneId,
    /// The panes whose tabs are pinned.
    pub pinned: Vec<PaneId>,
    /// The number the next pane gets.
    pub next_id: u64,
}

/// What is kept of the panes.
pub open spec fn captured(v: PanesView) -> SnapshotView {
    SnapshotView {
        tree: v.tree,
        cwds: live_dirs(v.order, v.terms),
        focused: v.focused,
        pinned: v.pinned,
        next_id: v.next_id,
    }
}

/// The directory kept for `pane` is the one at `i`.
pub open spec fn dir_at(dirs: Seq<(PaneId, Seq<char>)>, pane: PaneId, i: int) -> bool {
    &&& 0 <= i < dirs.len()
    &&& dirs[i].0 == pane
    &&& forall|j: int| 0 <= j < i ==> (#[trigger] dirs[j]).0 != pane
}

/// The directory kept for a pane, if there is one.
pub open spec fn dir_of(dirs: Seq<(PaneId, Seq<char>)>, pane: PaneId) -> Option<Seq<char>> {
    if exists|i: int| dir_at(dirs, pane, i) {
        Some(dirs[choose|i: int| dir_at(dirs, pane, i)].1)
    } else {
        None
    }
}

/// The kept directories but for that of one pane.
pub open spec fn without_dir(
    dirs: Seq<(PaneId, Seq<char>)>,
    pane: PaneId,
) -> Seq<(PaneId, Seq<char>)> {
    if exists|i: int| dir_at(dirs, pane, i) {
        dirs.remove(choose|i: int| dir_at(dirs, pane, i))
    } else {
        dirs
    }
}

/// Which of the kept directories is that of `pane`.
pub fn find_dir(dirs: &Vec<(PaneId, String)>, pane: PaneId) -> (r: Option<usize>)
    ensures
        match r {
            Some(i) => dir_at(panes::dir_views(dirs@), pane, i as int) && dir_of(
                panes::dir_views(dirs@),
                pane,
            ) == Some(dirs@[i as int].1@) && without_dir(panes::dir_views(dirs@), pane)
                == panes::dir_views(dirs@).remove(i as int),
            None => dir_of(panes::dir_views(dirs@), pane) is None && without_dir(
                panes::dir_views(dirs@),
                pane,
            ) == panes::dir_views(dirs@),
        },
{
    let ghost views = panes::dir_views(dirs@);
    let mut i: usize = 0;
    while i < dirs.len()
        invariant
            i <= dirs.len(),
            views == panes::dir_views(dirs@),
            forall|j: int| 0 <= j < i ==> (#[trigger] views[j]).0 != pane,
        decreases dirs.len() - i,
    {
        assert(views[i as int] == (dirs@[i as int].0, dirs@[i as int].1@));
        if dirs[i].0 == pane {
            assert(dir_at(views, pane, i as int));
            assert forall|j: int| dir_at(views, pane, j) implies j == i by {
                if j < i {
                    assert(views[j].0 != pane);
                }
                if i < j {
                    assert(views[i as int].0 != pane);
                }
            }
            return Some(i);
        }
        i += 1;
    }
    assert forall|j: int| !dir_at(views, pane, j) by {}
    None
}

/// The directory a waiting pane starts in: its own from the last session, or
/// else the one the program was started with.
pub open spec fn first_dir(
    v: PanesView,
    pane: PaneId,
    startup: Option<Seq<char>>,
) -> Option<Seq<char>> {
    match dir_of(v.restored, pane) {
        Some(dir) => Some(dir),
        None => startup,
    }
}

/// The panes after a waiting pane was started at its size.
pub open spec fn after_start(v: PanesView, pane: PaneId, size: (u16, u16)) -> PanesView {
    PanesView {
        pending: grid::without(v.pending, pane),
        restored: without_dir(v.restored, pane),
        terms: panes::without_term(v.terms, pane).push(panes::fresh_term(pane, size)),
        ..v
    }
}

impl Panes {
    /// Take up a layout kept from the last session.
    pub fn apply_layout_snapshot(&mut self, snapshot: LayoutSnapshot)
        ensures
            final(self)@ == after_restore(old(self)@, snapshot@),
    {
        let order = panes_in_visual_order(&snapshot.tree);
        if !snapshot_is_restorable(order.len()) {
            return ;
        }
        self.restored_cwds = cwds_among(&snapshot.cwds, &order);
        self.pinned = panes_among(&snapshot.pinned, &order);
        self.next_id = restored_next_id(&order, snapshot.next_id);
        self.focused_pane = if position_of(&order, snapshot.focused).is_some() {
            snapshot.focused
        } else {
            order[0]
        };
        self.terms = Vec::new();
        assert(panes::term_views(self.terms@) =~= Seq::empty());
        self.pending_spawn = panes_among(&order, &order);
        self.grid_tree = snapshot.tree;
        self.order = order;
    }

    /// What is kept of the panes, besides the tree.
    pub fn capture_layout(&self) -> (r: LayoutCapture)
        ensures
            panes::dir_views(r.cwds@) == captured(self@).cwds,
            r.focused == captured(self@).focused,
            r.pinned@ == captured(self@).pinned,
            r.next_id == captured(self@).next_id,
    {
        let mut cwds: Vec<(PaneId, String)> = Vec::new();
        let mut i: usize = 0;
        assert(panes::dir_views(cwds@) =~= Seq::empty());
        assert(self.order@.take(0) =~= Seq::empty());
        while i < self.order.len()
            invariant
                i <= self.order.len(),
                panes::dir_views(cwds@) == live_dirs(self.order@.take(i as int), self@.terms),
            decreases self.order.len() - i,
        {
            assert(self.order@.take(i + 1).drop_last() =~= self.order@.take(i as int));
            let pane = self.order[i];
            if let Some(k) = find_term(&self.terms, pane) {
                if let Some(cwd) = &self.terms[k].cwd {
                    let ghost before = cwds@;
                    let dir = owned(cwd.as_str());
                    cwds.push((pane, dir));
                    assert(panes::dir_views(cwds@) =~= panes::dir_views(before).push((pane, dir@)));
                }
            }
            i += 1;
        }
        assert(self.order@.take(self.order@.len() as int) =~= self.order@);
        let pinned = copied_panes(&self.pinned);
        LayoutCapture { cwds, focused: self.focused_pane, pinned, next_id: self.next_id }
    }

    /// Start the terminal of a pane that waits for its size, now that it is
    /// known. Gives the directory to start in; none where the pane does not
    /// wait.
    pub fn start_pending(
        &mut self,
        pane: PaneId,
        cols: u16,
        rows: u16,
        startup: &mut Option<String>,
    ) -> (r: Option<Option<String>>)
        ensures
            r is Some <==> old(self)@.pending.contains(pane),
            r is None ==> *final(self) == *old(self) && *final(startup) == *old(startup),
            r matches Some(dir) ==> {
                &&& final(self)@ == after_start(old(self)@, pane, (cols, rows))
                &&& text::opt_text(dir) == first_dir(
                    old(self)@,
                    pane,
                    text::opt_text(*old(startup)),
                )
                &&& *final(startup) == (if dir_of(old(self)@.restored, pane) is Some {
                    *old(startup)
                } else {
                    None
                })
            },
    {
        if position_of(&self.pending_spawn, pane).is_none() {
            return None;
        }
        self.pending_spawn = without_pane(&self.pending_spawn, pane);
        let kept: Option<String> = match find_dir(&self.restored_cwds, pane) {
            Some(i) => {
                let (_, dir) = self.restored_cwds.remove(i);
                assert(panes::dir_views(self.restored_cwds@) =~= old(self)@.restored.remove(
                    i as int,
                ));
                Some(dir)
            },
            None => None,
        };
        let dir = deferred_spawn_cwd(kept, startup);
        if let Some(i) = find_term(&self.terms, pane) {
            self.terms.remove(i);
            assert(panes::term_views(self.terms@) =~= old(self)@.terms.remove(i as int));
        }
        let ghost before = self.terms@;
        self.terms.push(TermInfo::started(pane, cols, rows));
        assert(panes::term_views(self.terms@) =~= panes::term_views(before).push(
            panes::fresh_term(pane, (cols, rows)),
        ));
        Some(dir)
    }
}

/// What is kept of a list holds no pane twice, and only panes of the list.
proof fn lemma_among_once(s: Seq<PaneId>, keep: Seq<PaneId>)
    ensures
        among(s, keep).no_duplicates(),
        forall|p: PaneId| #[trigger] among(s, keep).contains(p) ==> s.contains(p),
    decreases s.len(),
{
    if s.len() > 0 {
        let rest = among(s.drop_last(), keep);
        let all = among(s, keep);
        lemma_among_once(s.drop_last(), keep);
        assert forall|p: PaneId| #[trigger] all.contains(p) implies s.contains(p) by {
            let i = all.index_of(p);
            if i < rest.len() {
                assert(rest[i] == p);
                assert(rest.contains(p));
                let j = s.drop_last().index_of(p);
                assert(s[j] == p);
            } else {
                assert(s[s.len() - 1] == p);
            }
        }
        assert forall|i: int, j: int|
            0 <= i < all.len() && 0 <= j < all.len() && i != j implies all[i] != all[j] by {
            if i < rest.len() {
                assert(rest.contains(rest[i]));
            }
            if j < rest.len() {
                assert(rest.contains(rest[j]));
            }
        }
    }
}

/// A list without duplicates keeps all its panes where all are to be kept.
proof fn lemma_all_among(s: Seq<PaneId>, keep: Seq<PaneId>)
    requires
        s.no_duplicates(),
        forall|i: int| 0 <= i < s.len() ==> keep.contains(#[trigger] s[i]),
    ensures
        among(s, keep) == s,
    decreases s.len(),
{
    if s.len() > 0 {
        let rest = s.drop_last();
        assert forall|i: int| 0 <= i < rest.len() implies keep.contains(#[trigger] rest[i]) by {
            assert(rest[i] == s[i]);
        }
        lemma_all_among(rest, keep);
        assert(s[s.len() - 1] == s.last());
        assert(!rest.contains(s.last())) by {
            if rest.contains(s.last()) {
                let i = rest.index_of(s.last());
                assert(s[i] == s[s.len() - 1]);
            }
        }
        assert(s =~= rest.push(s.last()));
    }
}

/// The directories of open panes are all kept.
proof fn lemma_live_dirs_stay(order: Seq<PaneId>, terms: Seq<TermView>, keep: Seq<PaneId>)
    requires
        forall|i: int| 0 <= i < order.len() ==> keep.contains(#[trigger] order[i]),
    ensures
        dirs_among(live_dirs(order, terms), keep) == live_dirs(order, terms),
    decreases order.len(),
{
    if order.len() > 0 {
        let rest = order.drop_last();
        assert forall|i: int| 0 <= i < rest.len() implies keep.contains(#[trigger] rest[i]) by {
            assert(rest[i] == order[i]);
        }
        lemma_live_dirs_stay(rest, terms, keep);
        assert(order[order.len() - 1] == order.last());
        let dirs = live_dirs(order, terms);
        if dirs.len() > live_dirs(rest, terms).len() {
            assert(dirs.drop_last() =~= live_dirs(rest, terms));
        }
    }
}

/// What a session keeps the next one takes up: the same panes in the same
/// order, the same focus, the same pinned tabs and the directory of every pane
/// that reported one; and the numbers go on where they were.
pub proof fn a_kept_layout_comes_back(v: PanesView, w: PanesView)
    requires
        panes::valid(v),
        forall|i: int| 0 <= i < v.pinned.len() ==> v.order.contains(#[trigger] v.pinned[i]),
    ensures
        ({
            let r = after_restore(w, captured(v));
            &&& r.tree == v.tree
            &&& r.order == v.order
            &&& r.focused == v.focused
            &&& r.pinned == v.pinned
            &&& r.restored == live_dirs(v.order, v.terms)
            &&& r.next_id == v.next_id
            &&& r.pending == v.order
        }),
{
    lemma_all_among(v.pinned, v.order);
    lemma_all_among(v.order, v.order);
    lemma_live_dirs_stay(v.order, v.terms, v.order);
    lemma_next_stays(v.order, v.next_id);
}

/// A number that is past every pane already stays.
proof fn lemma_next_stays(panes: Seq<PaneId>, next: u64)
    requires
        forall|i: int| 0 <= i < panes.len() ==> (#[trigger] panes[i]).id < next,
    ensures
        next_after(panes, next) == next,
    decreases panes.len(),
{
    if panes.len() > 0 {
        let rest = panes.drop_last();
        assert forall|i: int| 0 <= i < rest.len() implies (#[trigger] rest[i]).id < next by {
            assert(rest[i] == panes[i]);
        }
        lemma_next_stays(rest, next);
        assert(panes[panes.len() - 1] == panes.last());
    }
}

/// What is kept of the directories has one for a pane at most, where there was
/// one at most.
proof fn lemma_dirs_among_once(dirs: Seq<(PaneId, Seq<char>)>, keep: Seq<PaneId>)
    requires
        panes::one_dir_each(dirs),
    ensures
        panes::one_dir_each(dirs_among(dirs, keep)),
        forall|d: (PaneId, Seq<char>)| #[trigger]
            dirs_among(dirs, keep).contains(d) ==> dirs.contains(d),
    decreases dirs.len(),
{
    if dirs.len() > 0 {
        let few = dirs.drop_last();
        let rest = dirs_among(few, keep);
        let all = dirs_among(dirs, keep);
        assert forall|i: int, j: int| 0 <= i < j < few.len() implies (#[trigger] few[i]).0 != (
        #[trigger] few[j]).0 by {
            assert(few[i] == dirs[i] && few[j] == dirs[j]);
        }
        lemma_dirs_among_once(few, keep);
        assert forall|d: (PaneId, Seq<char>)| #[trigger] all.contains(d) implies dirs.contains(
            d,
        ) by {
            let i = all.index_of(d);
            if i < rest.len() {
                assert(rest[i] == d);
                assert(rest.contains(d));
                let j = few.index_of(d);
                assert(dirs[j] == d);
            } else {
                assert(dirs[dirs.len() - 1] == d);
            }
        }
        assert forall|i: int, j: int| 0 <= i < j < all.len() implies (#[trigger] all[i]).0 != (
        #[trigger] all[j]).0 by {
            assert(all[i] == rest[i]);
            if j < rest.len() {
                assert(all[j] == rest[j]);
            } else {
                assert(rest.contains(rest[i]));
                let k = few.index_of(rest[i]);
                assert(dirs[k] == rest[i]);
                assert(dirs[dirs.len() - 1] == all[j]);
            }
        }
    }
}

/// Taking up a kept layout keeps the invariant, where every pane of it hangs in
/// one place and is shown by one tile, and has one directory at most.
pub proof fn restoring_keeps_the_invariant(v: PanesView, snap: SnapshotView)
    requires
        panes::valid(v),
        tree::linked_once(snap.tree),
        tree::each_shown_once(snap.tree),
        forall|i: int|
            0 <= i < tree::listed(snap.tree).len() ==> (#[trigger] tree::listed(snap.tree)[i]).id
                < u64::MAX,
        panes::one_dir_each(snap.cwds),
    ensures
        panes::valid(after_restore(v, snap)),
{
    let order = tree::listed(snap.tree);
    if restorable(order.len()) {
        tree::a_tree_shows_none_twice(snap.tree, order);
        new_panes_never_collide(order, snap.next_id);
        assert(order.contains(order[0]));
        lemma_among_once(snap.pinned, order);
        lemma_among_once(order, order);
        lemma_dirs_among_once(snap.cwds, order);
    }
}

/// Starting a pane that waited keeps the invariant; the pane has a terminal
/// then and waits no longer.
pub proof fn starting_keeps_the_invariant(v: PanesView, pane: PaneId, size: (u16, u16))
    requires
        panes::valid(v),
    ensures
        panes::valid(after_start(v, pane, size)),
        !after_start(v, pane, size).pending.contains(pane),
        panes::term_of(after_start(v, pane, size).terms, pane) == Some(
            panes::fresh_term(pane, size),
        ),
{
    let t = panes::fresh_term(pane, size);
    let w = after_start(v, pane, size);
    grid::without_keeps_the_others(v.pending, pane);
    panes::lemma_term_gone(v.terms, pane);
    panes::lemma_term_started(v.terms, t);
    let left = panes::without_term(v.terms, pane);
    assert(panes::term_at(w.terms, pane, left.len() as int)) by {
        assert(w.terms[left.len() as int] == t);
        assert forall|j: int| 0 <= j < left.len() implies #[trigger] w.terms[j].pane != pane by {
            assert(w.terms[j] == left[j]);
        }
    }
    assert forall|j: int| panes::term_at(w.terms, pane, j) implies j == left.len() by {
        if j < left.len() {
            assert(w.terms[j] == left[j]);
        }
    }
    if exists|i: int| dir_at(v.restored, pane, i) {
        let k = choose|i: int| dir_at(v.restored, pane, i);
        assert forall|i: int, j: int| 0 <= i < j < w.restored.len() implies (
        #[trigger] w.restored[i]).0 != (#[trigger] w.restored[j]).0 by {
            let a = if i < k {
                i
            } else {
                i + 1
            };
            let b = if j < k {
                j
            } else {
                j + 1
            };
            assert(w.restored[i] == v.restored[a] && w.restored[j] == v.restored[b]);
        }
    }
}

/// A layout can be taken up again with one pane and with as many as six, and with
/// no other number of them.
pub proof fn layouts_of_one_to_six_panes_come_back(count: nat)
    ensures
        restorable(count) <==> count == 1 || count == 2 || count == 3 || count == 4 || count == 5
            || count == 6,
{
}

/// Of a list exactly the panes that are to be kept are kept, each where it first
/// stands.
pub proof fn kept_panes_stand_as_they_stood(s: Seq<PaneId>, keep: Seq<PaneId>, p: PaneId)
    ensures
        among(s, keep).contains(p) <==> s.contains(p) && keep.contains(p),
        among(s, keep).no_duplicates(),
        keep.contains(p) && !s.contains(p) ==> among(s.push(p), keep) == among(s, keep).push(p),
        !keep.contains(p) || s.contains(p) ==> among(s.push(p), keep) == among(s, keep),
    decreases s.len(),
{
    lemma_among_once(s, keep);
    assert(s.push(p).drop_last() =~= s);
    assert(s.push(p).last() == p);
    if s.len() > 0 {
        let few = s.drop_last();
        let rest = among(few, keep);
        let all = among(s, keep);
        kept_panes_stand_as_they_stood(few, keep, p);
        assert(s.contains(p) <==> few.contains(p) || p == s.last()) by {
            if few.contains(p) {
                assert(s[few.index_of(p)] == p);
            }
            assert(s[s.len() - 1] == s.last());
            if s.contains(p) && p != s.last() {
                assert(few[s.index_of(p)] == p);
            }
        }
        if rest.contains(p) {
            assert(all[rest.index_of(p)] == p);
        }
        if keep.contains(s.last()) && !rest.contains(s.last()) {
            assert(all[rest.len() as int] == s.last());
        }
        if all.contains(p) {
            let i = all.index_of(p);
            if i < rest.len() {
                assert(rest[i] == p);
            }
        }
    }
}

/// A directory is kept exactly where its pane is, behind those before it.
pub proof fn directories_are_kept_with_their_panes(
    dirs: Seq<(PaneId, Seq<char>)>,
    keep: Seq<PaneId>,
    d: (PaneId, Seq<char>),
)
    ensures
        dirs_among(Seq::empty(), keep).len() == 0,
        keep.contains(d.0) ==> dirs_among(dirs.push(d), keep) == dirs_among(dirs, keep).push(d),
        !keep.contains(d.0) ==> dirs_among(dirs.push(d), keep) == dirs_among(dirs, keep),
{
    assert(dirs.push(d).drop_last() =~= dirs);
    assert(dirs.push(d).last() == d);
}

/// The next number is no higher than it must be: the one that was kept, or one
/// past the highest pane.
pub proof fn numbers_go_on_where_they_were(panes: Seq<PaneId>, next: u64)
    ensures
        next_after(panes, next) == next || exists|i: int|
            0 <= i < panes.len() && (#[trigger] panes[i]).id + 1 == next_after(panes, next),
        next <= next_after(panes, next),
        forall|i: int|
            0 <= i < panes.len() && (#[trigger] panes[i]).id < u64::MAX ==> panes[i].id
                < next_after(panes, next),
    decreases panes.len(),
{
    if panes.len() > 0 {
        let rest = panes.drop_last();
        numbers_go_on_where_they_were(rest, next);
        if next_after(rest, next) != next {
            let i = choose|i: int|
                0 <= i < rest.len() && (#[trigger] rest[i]).id + 1 == next_after(rest, next);
            assert(panes[i] == rest[i]);
        }
        assert(panes[panes.len() - 1] == panes.last());
        assert forall|i: int|
            0 <= i < panes.len() && (#[trigger] panes[i]).id < u64::MAX implies panes[i].id
            < next_after(panes, next) by {
            if i < rest.len() {
                assert(rest[i] == panes[i]);
            }
        }
    }
}

/// Taking up a kept layout: the panes are those of its tree, none has a terminal
/// and all wait for theirs; the focus is where it was, or on the first pane where
/// that one is gone. One with no pane or more than six changes nothing.
pub proof fn a_kept_layout_is_taken_up_whole(v: PanesView, snap: SnapshotView, p: PaneId)
    ensures
        ({
            let order = tree::listed(snap.tree);
            let w = after_restore(v, snap);
            &&& order.len() == 0 || order.len() > 6 ==> w == v
            &&& 1 <= order.len() <= 6 ==> {
                &&& w.tree == snap.tree && w.order == order && w.terms.len() == 0
                &&& w.pending.contains(p) <==> order.contains(p)
                &&& order.contains(snap.focused) ==> w.focused == snap.focused
                &&& !order.contains(snap.focused) ==> w.focused == order[0]
                &&& w.pinned.contains(p) <==> snap.pinned.contains(p) && order.contains(p)
                &&& w.next_id >= snap.next_id
                &&& w.closed == v.closed && w.zoomed == v.zoomed && w.selection == v.selection
                &&& w.line == v.line && w.last_spawn_cwd == v.last_spawn_cwd
            }
        }),
{
    let order = tree::listed(snap.tree);
    kept_panes_stand_as_they_stood(order, order, p);
    kept_panes_stand_as_they_stood(snap.pinned, order, p);
    numbers_go_on_where_they_were(order, snap.next_id);
}

/// The directories that are kept are those the terminals reported, pane by pane,
/// each under its own pane; a pane without a terminal, or whose shell reported
/// none, has none.
pub proof fn reported_directories_are_kept(order: Seq<PaneId>, terms: Seq<TermView>, p: PaneId)
    ensures
        live_dirs(Seq::empty(), terms).len() == 0,
        panes::term_of(terms, p) matches Some(t) ==> (t.cwd matches Some(dir) ==> live_dirs(
            order.push(p),
            terms,
        ) == live_dirs(order, terms).push((p, dir))),
        panes::term_of(terms, p) matches Some(t) ==> (t.cwd is None ==> live_dirs(
            order.push(p),
            terms,
        ) == live_dirs(order, terms)),
        panes::term_of(terms, p) is None ==> live_dirs(order.push(p), terms) == live_dirs(
            order,
            terms,
        ),
{
    assert(order.push(p).drop_last() =~= order);
    assert(order.push(p).last() == p);
}

/// What is kept of the panes is what they are: their tree, their focus, their
/// pinned tabs and the next number.
pub proof fn the_layout_is_kept_as_it_is(v: PanesView)
    ensures
        captured(v).tree == v.tree,
        captured(v).focused == v.focused,
        captured(v).pinned == v.pinned,
        captured(v).next_id == v.next_id,
{
}

/// The directory of a pane is the first one kept for it; it is used up once its
/// pane is started, and the others stay. A pane without one starts where the
/// program was told to.
pub proof fn a_pane_starts_in_its_own_directory(
    v: PanesView,
    pane: PaneId,
    startup: Option<Seq<char>>,
    i: int,
)
    ensures
        0 <= i < v.restored.len() && v.restored[i].0 == pane && (forall|j: int|
            0 <= j < i ==> (#[trigger] v.restored[j]).0 != pane) ==> first_dir(v, pane, startup)
            == Some(v.restored[i].1) && without_dir(v.restored, pane) == v.restored.remove(i),
        (forall|j: int| 0 <= j < v.restored.len() ==> (#[trigger] v.restored[j]).0 != pane)
            ==> first_dir(v, pane, startup) == startup && without_dir(v.restored, pane)
            == v.restored,
{
    if 0 <= i < v.restored.len() && v.restored[i].0 == pane && (forall|j: int|
        0 <= j < i ==> (#[trigger] v.restored[j]).0 != pane) {
        assert(dir_at(v.restored, pane, i));
        assert forall|j: int| dir_at(v.restored, pane, j) implies j == i by {
            if j < i {
                assert(v.restored[j].0 != pane);
            }
            if i < j {
                assert(v.restored[i].0 != pane);
            }
        }
    }
    if forall|j: int| 0 <= j < v.restored.len() ==> (#[trigger] v.restored[j]).0 != pane {
        assert forall|j: int| !dir_at(v.restored, pane, j) by {}
    }
}

/// Starting a pane that waited changes its own terminal, directory and place
/// among those that wait, and nothing else.
pub proof fn starting_touches_nothing_else(v: PanesView, pane: PaneId, size: (u16, u16))
    ensures
        ({
            let w = after_start(v, pane, size);
            &&& w.tree == v.tree && w.order == v.order && w.next_id == v.next_id
            &&& w.focused == v.focused && w.pinned == v.pinned && w.closed == v.closed
            &&& w.zoomed == v.zoomed && w.selection == v.selection && w.line == v.line
            &&& w.last_spawn_cwd == v.last_spawn_cwd
            &&& w.terms.len() > 0 && w.terms.last().pane == pane && w.terms.last().size == size
            &&& !w.terms.last().busy && w.terms.last().title is None && w.terms.last().cwd is None
        }),
{
}

/// A pane that waits for its terminal is started once, in the directory it was left
/// in or, where it was left in none, in the one the program was started with, which
/// is then used up.
pub proof fn a_waiting_pane_is_started_once(
    p: &mut Panes,
    pane: PaneId,
    cols: u16,
    rows: u16,
    startup: &mut Option<String>,
    r: Option<Option<String>>,
)
    requires
        call_ensures(Panes::start_pending, (p, pane, cols, rows, startup), r),
    ensures
        r is Some <==> old(p)@.pending.contains(pane),
        r is None ==> *final(p) == *old(p) && *final(startup) == *old(startup),
        r is Some ==> !final(p)@.pending.contains(pane),
        r matches Some(dir) ==> (dir_of(old(p)@.restored, pane) is Some ==> text::opt_text(dir)
            == dir_of(old(p)@.restored, pane) && *final(startup) == *old(startup)),
        r matches Some(dir) ==> (dir_of(old(p)@.restored, pane) is None ==> text::opt_text(dir)
            == text::opt_text(*old(startup)) && *final(startup) is None),
{
    grid::without_keeps_the_others(old(p)@.pending, pane);
}

} // verus!
