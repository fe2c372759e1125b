//! The panes: what each one is, which are open, which has the focus, and what a
//! close or a restart remembers of them.

use crate::grid;
use crate::grid::{copied_panes, position_of, without_pane, PaneId, SplitDir, MAX_PANES};
use crate::grid_interaction;
use crate::grid_interaction::{neighbor_in_rects, Candidate, Selection};
use crate::shells::{SPAWN_COLS, SPAWN_ROWS};
use crate::tabs;
use crate::tabs::{tab_a11y_label, tab_title};
use crate::text;
use crate::text::copy_opt;
use crate::tree;
use crate::tree::{close_in_tree, panes_in_visual_order, split_focused, uniform_grid};
use vstd::prelude::*;

verus! {

/// The most closed tabs that are remembered.
pub const MAX_CLOSED_TAB_HISTORY: usize = 16;

/// What is known of a pane's terminal.
#[derive(Debug, PartialEq, Eq)]
pub struct TermInfo {
    /// The pane it runs in.
    pub pane: PaneId,
    /// A command is running in it.
    pub busy: bool,
    /// The title its program set.
    pub title: Option<String>,
    /// The directory its shell reported.
    pub cwd: Option<String>,
    /// Its size in columns and rows.
    pub size: (u16, u16),
    /// The text on its screen.
    pub grid_text: Option<String>,
}

/// The view of what is known of a terminal.
pub struct TermView {
    pub pane: PaneId,
    pub busy: bool,
    pub title: Option<Seq<char>>,
    pub cwd: Option<Seq<char>>,
    pub size: (u16, u16),
    pub grid_text: Option<Seq<char>>,
}

impl View for TermInfo {
    type V = TermView;

    open spec fn view(&self) -> TermView {
        TermView {
            pane: self.pane,
            busy: self.busy,
            title: text::opt_text(self.title),
            cwd: text::opt_text(self.cwd),
            size: self.size,
            grid_text: text::opt_text(self.grid_text),
        }
    }
}

/// A terminal that has just been started.
pub open spec fn fresh_term(pane: PaneId, size: (u16, u16)) -> TermView {
    TermView { pane, busy: false, title: None, cwd: None, size, grid_text: None }
}

impl TermInfo {
    /// A terminal that has just been started.
    pub fn started(pane: PaneId, cols: u16, rows: u16) -> (r: TermInfo)
        ensures
            r@ == fresh_term(pane, (cols, rows)),
    {
        TermInfo { pane, busy: false, title: None, cwd: None, size: (cols, rows), grid_text: None }
    }
}

/// The views of a list of terminals.
pub open spec fn term_views(terms: Seq<TermInfo>) -> Seq<TermView> {
    terms.map_values(|t: TermInfo| t@)
}

/// The terminal of `pane` is the one at `i`.
pub open spec fn term_at(terms: Seq<TermView>, pane: PaneId, i: int) -> bool {
    &&& 0 <= i < terms.len()
    &&& terms[i].pane == pane
    &&& forall|j: int| 0 <= j < i ==> #[trigger] terms[j].pane != pane
}

/// The terminal of a pane, if it has one.
pub open spec fn term_of(terms: Seq<TermView>, pane: PaneId) -> Option<TermView> {
    if exists|i: int| term_at(terms, pane, i) {
        Some(terms[choose|i: int| term_at(terms, pane, i)])
    } else {
        None
    }
}

/// The terminals but for that of one pane.
pub open spec fn without_term(terms: Seq<TermView>, pane: PaneId) -> Seq<TermView> {
    if exists|i: int| term_at(terms, pane, i) {
        terms.remove(choose|i: int| term_at(terms, pane, i))
    } else {
        terms
    }
}

/// The terminals after one of them was heard of. A pane without a terminal gets
/// none.
pub open spec fn heard_of(terms: Seq<TermView>, t: TermView) -> Seq<TermView> {
    if exists|i: int| term_at(terms, t.pane, i) {
        terms.update(choose|i: int| term_at(terms, t.pane, i), t)
    } else {
        terms
    }
}

/// No pane has two terminals.
pub open spec fn one_term_each(terms: Seq<TermView>) -> bool {
    forall|i: int, j: int|
        0 <= i < j < terms.len() ==> (#[trigger] terms[i]).pane != (#[trigger] terms[j]).pane
}

/// No pane has two directories.
pub open spec fn one_dir_each(dirs: Seq<(PaneId, Seq<char>)>) -> bool {
    forall|i: int, j: int|
        0 <= i < j < dirs.len() ==> (#[trigger] dirs[i]).0 != (#[trigger] dirs[j]).0
}

/// How many terminals have a command running.
pub open spec fn busy_count(terms: Seq<TermView>) -> nat
    decreases terms.len(),
{
    if terms.len() == 0 {
        0
    } else {
        busy_count(terms.drop_last()) + (if terms.last().busy {
            1nat
        } else {
            0nat
        })
    }
}

/// Which of the terminals is that of `pane`.
pub fn find_term(terms: &Vec<TermInfo>, pane: PaneId) -> (r: Option<usize>)
    ensures
        match r {
            Some(i) => term_at(term_views(terms@), pane, i as int) && term_of(
                term_views(terms@),
                pane,
            ) == Some(terms@[i as int]@) && without_term(term_views(terms@), pane) == term_views(
                terms@,
            ).remove(i as int),
            None => term_of(term_views(terms@), pane) is None && without_term(
                term_views(terms@),
                pane,
            ) == term_views(terms@),
        },
{
    let ghost views = term_views(terms@);
    let mut i: usize = 0;
    while i < terms.len()
        invariant
            i <= terms.len(),
            views == term_views(terms@),
            forall|j: int| 0 <= j < i ==> #[trigger] views[j].pane != pane,
        decreases terms.len() - i,
    {
        assert(views[i as int] == terms@[i as int]@);
        if terms[i].pane == pane {
            assert(term_at(views, pane, i as int));
            assert forall|j: int| term_at(views, pane, j) implies j == i by {
                if j < i {
                    assert(views[j].pane != pane);
                }
                if i < j {
                    assert(views[i as int].pane != pane);
                }
            }
            return Some(i);
        }
        i += 1;
    }
    assert forall|j: int| !term_at(views, pane, j) by {}
    None
}

/// How many terminals have a command running.
pub fn count_busy(terms: &Vec<TermInfo>) -> (r: usize)
    ensures
        r as nat == busy_count(term_views(terms@)),
{
    let ghost views = term_views(terms@);
    let mut n: usize = 0;
    let mut i: usize = 0;
    assert(views.take(0) =~= Seq::empty());
    while i < terms.len()
        invariant
            i <= terms.len(),
            n <= i,
            views == term_views(terms@),
            n as nat == busy_count(views.take(i as int)),
        decreases terms.len() - i,
    {
        assert(views.take(i + 1).drop_last() =~= views.take(i as int));
        assert(views.take(i + 1).last() == terms@[i as int]@);
        if terms[i].busy {
            n += 1;
        }
        i += 1;
    }
    assert(views.take(terms@.len() as int) =~= views);
    n
}

/// The open panes and what goes with them.
pub struct Panes {
    /// The tiling tree that lays the panes out.
    pub grid_tree: egui_tiles::Tree<u64>,
    /// The panes in the order the tree shows them.
    pub order: Vec<PaneId>,
    /// The number the next pane gets.
    pub next_id: u64,
    /// The pane that has the focus.
    pub focused_pane: PaneId,
    /// The panes whose tabs are pinned.
    pub pinned: Vec<PaneId>,
    /// The panes whose terminal waits until its size is known.
    pub pending_spawn: Vec<PaneId>,
    /// The directories panes of the last session start in.
    pub restored_cwds: Vec<(PaneId, String)>,
    /// The directories of the panes closed last, the latest at the end.
    pub closed_tab_cwds: Vec<Option<String>>,
    /// The directory asked for at the last start of a terminal.
    pub last_spawn_cwd: Option<String>,
    /// The pane shown alone.
    pub zoomed_pane: Option<PaneId>,
    /// What is selected.
    pub selection: Option<Selection>,
    /// The terminals that run.
    pub terms: Vec<TermInfo>,
    /// The line being typed in the focused pane.
    pub input_line: String,
}

/// The view of the open panes.
pub struct PanesView {
    pub tree: egui_tiles::Tree<u64>,
    pub order: Seq<PaneId>,
    pub next_id: u64,
    pub focused: PaneId,
    pub pinned: Seq<PaneId>,
    pub pending: Seq<PaneId>,
    pub restored: Seq<(PaneId, Seq<char>)>,
    pub closed: Seq<Option<Seq<char>>>,
    pub last_spawn_cwd: Option<Seq<char>>,
    pub zoomed: Option<PaneId>,
    pub selection: Option<Selection>,
    pub terms: Seq<TermView>,
    pub line: Seq<char>,
}

/// The views of panes with a directory each.
pub open spec fn dir_views(dirs: Seq<(PaneId, String)>) -> Seq<(PaneId, Seq<char>)> {
    dirs.map_values(|d: (PaneId, String)| (d.0, d.1@))
}

/// The views of a list of optional texts.
pub open spec fn opt_texts(v: Seq<Option<String>>) -> Seq<Option<Seq<char>>> {
    v.map_values(|o: Option<String>| text::opt_text(o))
}

impl View for Panes {
    type V = PanesView;

    open spec fn view(&self) -> PanesView {
        PanesView {
            tree: self.grid_tree,
            order: self.order@,
            next_id: self.next_id,
            focused: self.focused_pane,
            pinned: self.pinned@,
            pending: self.pending_spawn@,
            restored: dir_views(self.restored_cwds@),
            closed: opt_texts(self.closed_tab_cwds@),
            last_spawn_cwd: text::opt_text(self.last_spawn_cwd),
            zoomed: self.zoomed_pane,
            selection: self.selection,
            terms: term_views(self.terms@),
            line: self.input_line@,
        }
    }
}

/// The invariant of the open panes: the order is that in which the tree shows
/// them, there is at least one and no more than fit, none twice, all numbered
/// below the next number, one of them with the focus, no
/// more closed tabs than are remembered, no pane with two terminals or two kept
/// directories, and none that is pinned or waits twice.
pub open spec fn valid(v: PanesView) -> bool {
    &&& tree::agrees(v.tree, v.order)
    &&& 1 <= v.order.len() <= MAX_PANES
    &&& v.order.no_duplicates()
    &&& forall|i: int| 0 <= i < v.order.len() ==> (#[trigger] v.order[i]).id < v.next_id
    &&& v.order.contains(v.focused)
    &&& v.closed.len() <= MAX_CLOSED_TAB_HISTORY
    &&& one_term_each(v.terms)
    &&& v.pinned.no_duplicates()
    &&& v.pending.no_duplicates()
    &&& one_dir_each(v.restored)
}

/// The panes a session starts with: one, with the focus, whose terminal waits
/// for its size.
pub open spec fn first_panes(v: PanesView) -> bool {
    let first = PaneId { id: 0 };
    &&& v.order == seq![first]
    &&& v.next_id == 1
    &&& v.focused == first
    &&& v.pinned == Seq::<PaneId>::empty()
    &&& v.pending == seq![first]
    &&& v.restored == Seq::<(PaneId, Seq<char>)>::empty()
    &&& v.closed == Seq::<Option<Seq<char>>>::empty()
    &&& v.last_spawn_cwd is None
    &&& v.zoomed is None
    &&& v.selection is None
    &&& v.terms == Seq::<TermView>::empty()
    &&& v.line == Seq::<char>::empty()
    &&& tree::agrees(v.tree, v.order)
}

/// The closed tabs after one more was closed: the oldest goes where there are
/// too many.
pub open spec fn remembered(
    closed: Seq<Option<Seq<char>>>,
    cwd: Option<Seq<char>>,
) -> Seq<Option<Seq<char>>> {
    if closed.len() < MAX_CLOSED_TAB_HISTORY {
        closed.push(cwd)
    } else {
        closed.push(cwd).remove(0)
    }
}

/// The focus once a pane may be gone: it stays where its pane is still open,
/// else it goes to the first pane there is.
pub open spec fn anchored(focused: PaneId, order: Seq<PaneId>) -> PaneId {
    if order.contains(focused) || order.len() == 0 {
        focused
    } else {
        order[0]
    }
}

/// Whether a close request for `pane` takes it away: it is in the tree and is
/// not the only one.
pub open spec fn closable(v: PanesView, pane: PaneId) -> bool {
    v.order.len() > 1 && tree::shows(v.tree, pane.id)
}

/// What closing `pane` makes of everything but the tree. The order is read off
/// the tree.
pub open spec fn after_close(v: PanesView, pane: PaneId, tree: egui_tiles::Tree<u64>) -> PanesView {
    let order = tree::listed(tree);
    PanesView {
        tree,
        order,
        closed: remembered(
            v.closed,
            match term_of(v.terms, pane) {
                Some(t) => t.cwd,
                None => None,
            },
        ),
        terms: without_term(v.terms, pane),
        pinned: grid::without(v.pinned, pane),
        selection: None,
        zoomed: if v.zoomed == Some(pane) {
            None
        } else {
            v.zoomed
        },
        focused: anchored(v.focused, order),
        ..v
    }
}

/// What came of asking for one more pane.
#[derive(Clone, Copy, Debug, PartialEq, Eq, Structural)]
pub enum SplitOutcome {
    /// There is no room for another.
    Full,
    /// The tree did not place it.
    Refused,
    /// It is open.
    Opened(PaneId),
}

/// What comes of asking for one more pane: there is no room, or the focused pane
/// is not in the tree or the tree has no numbers left for more tiles, or the pane
/// is open.
pub open spec fn split_outcome(v: PanesView) -> SplitOutcome {
    if v.order.len() >= MAX_PANES {
        SplitOutcome::Full
    } else if tree::shows(v.tree, v.focused.id) && tree::has_numbers(v.tree) {
        SplitOutcome::Opened(PaneId { id: v.next_id })
    } else {
        SplitOutcome::Refused
    }
}

/// What asking for one more pane makes of everything but the tree. The order is
/// read off the tree.
pub open spec fn after_split(
    v: PanesView,
    cwd: Option<Seq<char>>,
    tree: egui_tiles::Tree<u64>,
) -> PanesView {
    match split_outcome(v) {
        SplitOutcome::Full => v,
        SplitOutcome::Refused => PanesView { next_id: (v.next_id + 1) as u64, ..v },
        SplitOutcome::Opened(new) => PanesView {
            tree,
            next_id: (v.next_id + 1) as u64,
            order: tree::listed(tree),
            terms: without_term(v.terms, new).push(fresh_term(new, (SPAWN_COLS, SPAWN_ROWS))),
            focused: new,
            last_spawn_cwd: cwd,
            ..v
        },
    }
}

/// Where a pane opens, the tile of the focused one is split for it.
pub open spec fn tree_splits(v: PanesView, dir: SplitDir, tree: egui_tiles::Tree<u64>) -> bool {
    split_outcome(v) matches SplitOutcome::Opened(new) ==> tree::splits_tile(
        v.tree,
        tree,
        v.focused,
        new,
        dir,
    )
}

impl Panes {
    /// The panes a session starts with.
    pub fn new() -> (r: Panes)
        ensures
            first_panes(r@),
            valid(r@),
    {
        let first = PaneId { id: 0 };
        let mut order: Vec<PaneId> = Vec::new();
        order.push(first);
        let mut pending: Vec<PaneId> = Vec::new();
        pending.push(first);
        let tree = uniform_grid(&order);
        let r = Panes {
            grid_tree: tree,
            order,
            next_id: 1,
            focused_pane: first,
            pinned: Vec::new(),
            pending_spawn: pending,
            restored_cwds: Vec::new(),
            closed_tab_cwds: Vec::new(),
            last_spawn_cwd: None,
            zoomed_pane: None,
            selection: None,
            terms: Vec::new(),
            input_line: String::new(),
        };
        proof {
            let v = r@;
            assert(v.order =~= seq![first]);
            assert(v.order[0] == first);
            assert(v.order.contains(first));
            let (ids, root) = choose|ids: Seq<u64>, root: u64| #[trigger]
                tree::grid_of(tree, grid::numbers(v.order), ids, root);
            tree::a_grid_shows_its_panes(tree, v.order, ids, root);
            assert(v.restored =~= Seq::empty());
            assert(v.closed =~= Seq::empty());
            assert(v.terms =~= Seq::empty());
        }
        r
    }

    /// Remember the directory of a closed tab.
    pub fn push_closed_tab_cwd(&mut self, cwd: Option<String>)
        ensures
            final(self)@ == (PanesView {
                closed: remembered(old(self)@.closed, text::opt_text(cwd)),
                ..old(self)@
            }),
            old(self)@.closed.len() <= MAX_CLOSED_TAB_HISTORY ==> final(self)@.closed.len()
                <= MAX_CLOSED_TAB_HISTORY,
    {
        self.closed_tab_cwds.push(cwd);
        assert(opt_texts(self.closed_tab_cwds@) =~= old(self)@.closed.push(text::opt_text(cwd)));
        if self.closed_tab_cwds.len() > MAX_CLOSED_TAB_HISTORY {
            let ghost full = self.closed_tab_cwds@;
            self.closed_tab_cwds.remove(0);
            assert(opt_texts(self.closed_tab_cwds@) =~= opt_texts(full).remove(0));
        }
    }

    /// Close a pane. The only pane stays, and one that is not there is no pane
    /// to close. Tells whether it was closed.
    pub fn close_pane(&mut self, pane: PaneId) -> (r: bool)
        ensures
            r == closable(old(self)@, pane),
            !r ==> *final(self) == *old(self),
            r ==> final(self)@ == after_close(old(self)@, pane, final(self)@.tree),
            r ==> exists|t: u64| #[trigger]
                tree::tile_shows(old(self)@.tree, t, pane.id) && tree::closed_tile(
                    old(self)@.tree,
                    final(self)@.tree,
                    t,
                ),
    {
        if self.order.len() <= 1 {
            return false;
        }
        if !close_in_tree(&mut self.grid_tree, pane) {
            return false;
        }
        let ghost t = choose|t: u64| #[trigger]
            tree::tile_shows(old(self)@.tree, t, pane.id) && tree::closed_tile(
                old(self)@.tree,
                self.grid_tree,
                t,
            );
        let which = find_term(&self.terms, pane);
        let cwd = match which {
            Some(i) => copy_opt(&self.terms[i].cwd),
            None => None,
        };
        self.push_closed_tab_cwd(cwd);
        if let Some(i) = which {
            self.terms.remove(i);
            assert(term_views(self.terms@) =~= old(self)@.terms.remove(i as int));
        }
        self.order = panes_in_visual_order(&self.grid_tree);
        self.pinned = without_pane(&self.pinned, pane);
        self.selection = None;
        if self.zoomed_pane.is_some() && self.zoomed_pane.unwrap() == pane {
            self.zoomed_pane = None;
        }
        if position_of(&self.order, self.focused_pane).is_none() && self.order.len() > 0 {
            self.focused_pane = self.order[0];
        }
        assert(tree::tile_shows(old(self)@.tree, t, pane.id) && tree::closed_tile(
            old(self)@.tree,
            self@.tree,
            t,
        ));
        true
    }

    /// Ask for one more pane that starts in `cwd`, behind the focused one.
    pub fn split_in(&mut self, dir: SplitDir, cwd: Option<String>) -> (r: SplitOutcome)
        requires
            old(self).next_id < u64::MAX,
        ensures
            r == split_outcome(old(self)@),
            final(self)@ == after_split(old(self)@, text::opt_text(cwd), final(self)@.tree),
            tree_splits(old(self)@, dir, final(self)@.tree),
    {
        if self.order.len() >= MAX_PANES {
            return SplitOutcome::Full;
        }
        let new = PaneId { id: self.next_id };
        self.next_id = self.next_id + 1;
        if !split_focused(&mut self.grid_tree, self.focused_pane, new, dir) {
            return SplitOutcome::Refused;
        }
        self.order = panes_in_visual_order(&self.grid_tree);
        if let Some(i) = find_term(&self.terms, new) {
            self.terms.remove(i);
            assert(term_views(self.terms@) =~= old(self)@.terms.remove(i as int));
        }
        let ghost before = self.terms@;
        self.terms.push(TermInfo::started(new, SPAWN_COLS, SPAWN_ROWS));
        assert(term_views(self.terms@) =~= term_views(before).push(
            fresh_term(new, (SPAWN_COLS, SPAWN_ROWS)),
        ));
        self.focused_pane = new;
        self.last_spawn_cwd = cwd;
        SplitOutcome::Opened(new)
    }

    /// Lay the panes out as a uniform grid, in their order. Nothing happens where
    /// there is one pane at most. Tells whether they were laid out anew.
    pub fn equalize(&mut self) -> (r: bool)
        ensures
            r == (old(self)@.order.len() > 1),
            equalizes(old(self)@, final(self)@),
    {
        if self.order.len() <= 1 {
            return false;
        }
        self.grid_tree = uniform_grid(&self.order);
        self.order = panes_in_visual_order(&self.grid_tree);
        true
    }
}

/// Laying the panes out anew takes them from `v` to `w`: the tree is a grid with
/// a tile for each pane, in their order.
pub open spec fn equalizes(v: PanesView, w: PanesView) -> bool {
    if v.order.len() > 1 {
        &&& w == (PanesView { tree: w.tree, order: tree::listed(w.tree), ..v })
        &&& exists|ids: Seq<u64>, root: u64| #[trigger]
            tree::grid_of(w.tree, grid::numbers(v.order), ids, root)
    } else {
        w == v
    }
}

/// What asking for the last closed tab back makes of everything but the tree:
/// one more pane where that one was; the tab is forgotten only once it is open
/// again.
pub open spec fn after_reopen(v: PanesView, tree: egui_tiles::Tree<u64>) -> PanesView {
    if v.closed.len() == 0 {
        v
    } else {
        let after = after_split(v, v.closed.last(), tree);
        if split_outcome(v) is Opened {
            PanesView { closed: v.closed.drop_last(), ..after }
        } else {
            after
        }
    }
}

/// The panes after the focus went to `pane`: a line typed in another pane is
/// forgotten.
pub open spec fn focused_on(v: PanesView, pane: PaneId) -> PanesView {
    PanesView {
        focused: pane,
        line: if pane != v.focused {
            Seq::empty()
        } else {
            v.line
        },
        ..v
    }
}

/// The pane after the focused one, in order and from the last to the first; the
/// second pane where the focused one is not in the order.
pub open spec fn next_in_order(order: Seq<PaneId>, focused: PaneId) -> PaneId {
    let at = if order.contains(focused) {
        first_index(order, focused)
    } else {
        0
    };
    order[(at + 1) % (order.len() as int)]
}

/// Where `pane` first stands in the order.
pub open spec fn first_index(order: Seq<PaneId>, pane: PaneId) -> int {
    choose|i: int|
        0 <= i < order.len() && order[i] == pane && forall|j: int|
            0 <= j < i ==> #[trigger] order[j] != pane
}

/// The panes after the focus moved to the next one.
pub open spec fn focused_next(v: PanesView) -> PanesView {
    if v.order.len() < 2 {
        v
    } else {
        focused_on(v, next_in_order(v.order, v.focused))
    }
}

/// The panes after the focused one was asked to be shown alone, or all again.
pub open spec fn zoom_toggled(v: PanesView) -> PanesView {
    PanesView {
        zoomed: if v.zoomed is Some {
            None
        } else {
            Some(v.focused)
        },
        ..v
    }
}

/// Whether a tree that was drawn can be taken over: it shows a pane, and no more
/// than fit.
pub open spec fn stands(drawn: egui_tiles::Tree<u64>) -> bool {
    1 <= tree::listed(drawn).len() <= MAX_PANES
}

/// The panes after the grid area was drawn: as it was drawn, in the order in
/// which the tree shows them, or as before where that cannot be taken over.
pub open spec fn after_drag(v: PanesView, drawn: egui_tiles::Tree<u64>) -> PanesView {
    if stands(drawn) {
        PanesView { tree: drawn, order: tree::listed(drawn), ..v }
    } else {
        v
    }
}

/// The panes after a tab was pinned, or unpinned.
pub open spec fn pin_toggled(v: PanesView, pane: PaneId) -> PanesView {
    PanesView {
        pinned: if v.pinned.contains(pane) {
            grid::without(v.pinned, pane)
        } else {
            v.pinned.push(pane)
        },
        ..v
    }
}

/// Which panes the grid area shows.
#[derive(Clone, Copy, Debug, PartialEq, Eq, Structural)]
pub enum Shown {
    /// One pane alone.
    One(PaneId),
    /// All panes, laid out by the tree.
    All,
}

/// Which panes the grid area shows: the zoomed one alone while it is open; in
/// the tabbed view the focused one alone, or else the first; and all otherwise.
pub open spec fn on_display(v: PanesView, tabbed: bool) -> Shown {
    if v.zoomed is Some && v.order.contains(v.zoomed->0) {
        Shown::One(v.zoomed->0)
    } else if tabbed {
        Shown::One(anchored(v.focused, v.order))
    } else {
        Shown::All
    }
}

/// The title of a pane's program, if it has a terminal and the program set one.
pub open spec fn title_of(terms: Seq<TermView>, pane: PaneId) -> Option<Seq<char>> {
    match term_of(terms, pane) {
        Some(t) => t.title,
        None => None,
    }
}

/// What the tab of a pane shows.
pub open spec fn tab_text(v: PanesView, pane: PaneId) -> Seq<char> {
    tabs::shown(pane, title_of(v.terms, pane))
}

impl Panes {
    /// Open the last closed tab again, behind the focused pane. None where no tab
    /// was closed.
    pub fn reopen_closed_tab(&mut self, dir: SplitDir) -> (r: Option<SplitOutcome>)
        requires
            old(self).next_id < u64::MAX,
        ensures
            final(self)@ == after_reopen(old(self)@, final(self)@.tree),
            old(self)@.closed.len() > 0 ==> tree_splits(old(self)@, dir, final(self)@.tree),
            r == (if old(self)@.closed.len() == 0 {
                None
            } else {
                Some(split_outcome(old(self)@))
            }),
    {
        let n = self.closed_tab_cwds.len();
        if n == 0 {
            return None;
        }
        let cwd = copy_opt(&self.closed_tab_cwds[n - 1]);
        assert(old(self)@.closed.last() == text::opt_text(cwd));
        let r = self.split_in(dir, cwd);
        if let SplitOutcome::Opened(_) = r {
            assert(self.closed_tab_cwds@.len() == opt_texts(self.closed_tab_cwds@).len());
            let ghost before = self.closed_tab_cwds@;
            let _ = self.closed_tab_cwds.pop();
            assert(opt_texts(self.closed_tab_cwds@) =~= opt_texts(before).drop_last());
        }
        Some(r)
    }

    /// Give the focus to a pane.
    pub fn focus_pane(&mut self, pane: PaneId)
        ensures
            final(self)@ == focused_on(old(self)@, pane),
    {
        if pane != self.focused_pane {
            self.input_line = String::new();
            assert(self.input_line@ =~= Seq::empty());
        }
        self.focused_pane = pane;
    }

    /// Move the focus to the next pane.
    pub fn focus_next_pane(&mut self)
        ensures
            final(self)@ == focused_next(old(self)@),
    {
        let n = self.order.len();
        if n < 2 {
            return ;
        }
        let at: usize = match position_of(&self.order, self.focused_pane) {
            Some(i) => i,
            None => 0,
        };
        proof {
            if self.order@.contains(self.focused_pane) {
                let i = first_index(self.order@, self.focused_pane);
                assert(self.order@[at as int] == self.focused_pane);
                assert(0 <= i < n && self.order@[i] == self.focused_pane);
                assert(i == at);
            }
        }
        let next: usize = (at + 1) % n;
        let pane = self.order[next];
        self.focus_pane(pane);
    }

    /// Move the focus in a direction, to the nearest of the candidates there.
    /// Nothing happens where none qualifies.
    pub fn focus_directional(&mut self, candidates: &Vec<Candidate>)
        ensures
            final(self)@ == directed(old(self)@, candidates@),
    {
        if let Some(p) = neighbor_in_rects(candidates, self.focused_pane) {
            if p != self.focused_pane {
                self.focus_pane(p);
            }
        }
    }

    /// Show the focused pane alone, or all panes again.
    pub fn toggle_zoom_pane(&mut self)
        ensures
            final(self)@ == zoom_toggled(old(self)@),
    {
        self.zoomed_pane = if self.zoomed_pane.is_some() {
            None
        } else {
            Some(self.focused_pane)
        };
    }

    /// A pane is shown alone only while it has the focus.
    pub fn reconcile_zoom(&mut self)
        ensures
            final(self)@ == (PanesView {
                zoomed: if old(self)@.zoomed == Some(old(self)@.focused) {
                    old(self)@.zoomed
                } else {
                    None
                },
                ..old(self)@
            }),
    {
        match self.zoomed_pane {
            Some(z) => {
                if z != self.focused_pane {
                    self.zoomed_pane = None;
                }
            },
            None => {},
        }
    }

    /// Pin a tab, or unpin it.
    pub fn toggle_pin(&mut self, pane: PaneId)
        ensures
            final(self)@ == pin_toggled(old(self)@, pane),
    {
        if position_of(&self.pinned, pane).is_some() {
            self.pinned = without_pane(&self.pinned, pane);
        } else {
            self.pinned.push(pane);
        }
    }

    /// Whether a tab is pinned.
    pub fn is_pinned(&self, pane: PaneId) -> (r: bool)
        ensures
            r == self@.pinned.contains(pane),
    {
        position_of(&self.pinned, pane).is_some()
    }

    /// Which panes the grid area shows.
    pub fn shown_panes(&self, tabbed: bool) -> (r: Shown)
        ensures
            r == on_display(self@, tabbed),
    {
        if let Some(z) = self.zoomed_pane {
            if position_of(&self.order, z).is_some() {
                return Shown::One(z);
            }
        }
        if tabbed {
            if position_of(&self.order, self.focused_pane).is_none() && self.order.len() > 0 {
                Shown::One(self.order[0])
            } else {
                Shown::One(self.focused_pane)
            }
        } else {
            Shown::All
        }
    }

    /// Take over the tree as it was drawn, which the user may have rearranged,
    /// and the order in which it shows the panes. One that shows no pane, or more
    /// than fit, is turned down, and nothing changes. Tells whether it was taken
    /// over.
    pub fn rearranged(&mut self, drawn: egui_tiles::Tree<u64>) -> (r: bool)
        ensures
            r == stands(drawn),
            final(self)@ == after_drag(old(self)@, drawn),
    {
        let order = panes_in_visual_order(&drawn);
        if 1 <= order.len() && order.len() <= MAX_PANES {
            self.grid_tree = drawn;
            self.order = order;
            true
        } else {
            false
        }
    }

    /// Take in how a terminal stands. Tells whether its pane has one.
    pub fn note_term(&mut self, info: TermInfo) -> (r: bool)
        ensures
            r == (term_of(old(self)@.terms, info.pane) is Some),
            final(self)@ == (PanesView {
                terms: heard_of(old(self)@.terms, info@),
                ..old(self)@
            }),
    {
        match find_term(&self.terms, info.pane) {
            Some(i) => {
                let ghost before = self.terms@;
                proof {
                    let views = term_views(before);
                    assert(term_at(views, info@.pane, i as int));
                    assert forall|k: int| term_at(views, info@.pane, k) implies k == i by {
                        if k < i {
                            assert(views[k].pane != info.pane);
                        }
                        if i < k {
                            assert(views[i as int].pane != info.pane);
                        }
                    }
                    assert(heard_of(views, info@) == views.update(i as int, info@));
                }
                self.terms.set(i, info);
                assert(term_views(self.terms@) =~= term_views(before).update(i as int, info@));
                true
            },
            None => false,
        }
    }

    /// What the tab of a pane shows.
    pub fn title_for(&self, pane: PaneId) -> (r: String)
        ensures
            r@ == tab_text(self@, pane),
    {
        match find_term(&self.terms, pane) {
            Some(i) => tab_title(pane, &self.terms[i].title),
            None => tab_title(pane, &None),
        }
    }

    /// The open panes in order, each with what its tab shows.
    pub fn pane_titles(&self) -> (r: Vec<(PaneId, String)>)
        ensures
            dir_views(r@) == self@.order.map_values(|p: PaneId| (p, tab_text(self@, p))),
    {
        let mut out: Vec<(PaneId, String)> = Vec::new();
        let mut i: usize = 0;
        while i < self.order.len()
            invariant
                i <= self.order.len(),
                out@.len() == i,
                forall|j: int|
                    0 <= j < i ==> (#[trigger] out@[j]).0 == self@.order[j] && out@[j].1@
                        == tab_text(self@, self@.order[j]),
            decreases self.order.len() - i,
        {
            let p = self.order[i];
            let t = self.title_for(p);
            out.push((p, t));
            i += 1;
        }
        assert(dir_views(out@) =~= self@.order.map_values(
            |p: PaneId| (p, tab_text(self@, p)),
        ));
        out
    }

    /// The label of a pane's tab for assistive technology.
    pub fn tab_label_for_pane(&self, pane: PaneId) -> (r: Option<String>)
        ensures
            text::opt_text(r) == (if self@.order.contains(pane) {
                Some(tabs::labelled(pane, tab_text(self@, pane)))
            } else {
                None
            }),
    {
        if position_of(&self.order, pane).is_some() {
            let t = self.title_for(pane);
            Some(tab_a11y_label(pane, t.as_str()))
        } else {
            None
        }
    }

    /// The open panes that have a terminal, in order.
    pub fn pane_ids(&self) -> (r: Vec<PaneId>)
        ensures
            r@ == self@.order.filter(|p: PaneId| term_of(self@.terms, p) is Some),
    {
        let ghost live = |p: PaneId| term_of(self@.terms, p) is Some;
        let mut out: Vec<PaneId> = Vec::new();
        let mut i: usize = 0;
        proof {
            reveal(Seq::filter);
            assert(self.order@.take(0) =~= Seq::<PaneId>::empty());
        }
        while i < self.order.len()
            invariant
                i <= self.order.len(),
                live == (|p: PaneId| term_of(self@.terms, p) is Some),
                out@ == self.order@.take(i as int).filter(live),
            decreases self.order.len() - i,
        {
            proof {
                reveal(Seq::filter);
                assert(self.order@.take(i + 1).drop_last() =~= self.order@.take(i as int));
            }
            if self.has_term(self.order[i]) {
                out.push(self.order[i]);
            }
            i += 1;
        }
        assert(self.order@.take(self.order@.len() as int) =~= self.order@);
        out
    }

    /// All open panes, in order.
    pub fn all_panes(&self) -> (r: Vec<PaneId>)
        ensures
            r@ == self@.order,
    {
        copied_panes(&self.order)
    }

    /// The text on the screen of a pane.
    pub fn pane_grid_text(&self, pane: PaneId) -> (r: Option<String>)
        ensures
            text::opt_text(r) == (match term_of(self@.terms, pane) {
                Some(t) => t.grid_text,
                None => None,
            }),
    {
        match find_term(&self.terms, pane) {
            Some(i) => copy_opt(&self.terms[i].grid_text),
            None => None,
        }
    }

    /// The size of a pane's terminal, in columns and rows.
    pub fn pane_size(&self, pane: PaneId) -> (r: Option<(u16, u16)>)
        ensures
            r == (match term_of(self@.terms, pane) {
                Some(t) => Some(t.size),
                None => None,
            }),
    {
        match find_term(&self.terms, pane) {
            Some(i) => Some(self.terms[i].size),
            None => None,
        }
    }

    /// Whether a pane has a terminal.
    pub fn has_term(&self, pane: PaneId) -> (r: bool)
        ensures
            r == (term_of(self@.terms, pane) is Some),
    {
        find_term(&self.terms, pane).is_some()
    }

    /// How many panes have a command running.
    pub fn busy_pane_count(&self) -> (r: usize)
        ensures
            r as nat == busy_count(self@.terms),
    {
        count_busy(&self.terms)
    }
}

/// The panes after the focus moved to the nearest of the candidates, if one
/// qualifies.
pub open spec fn directed(v: PanesView, candidates: Seq<Candidate>) -> PanesView {
    match match_nearest(candidates, v.focused) {
        Some(p) => focused_on(v, p),
        None => v,
    }
}

/// The candidate the focus goes to.
pub open spec fn match_nearest(candidates: Seq<Candidate>, focus: PaneId) -> Option<PaneId> {
    if exists|i: int| grid_interaction::nearest_at(candidates, focus, i) {
        Some(
            candidates[choose|i: int| grid_interaction::nearest_at(candidates, focus, i)].pane,
        )
    } else {
        None
    }
}

/// Closing a pane keeps the invariant: some pane is left, one has the focus, and
/// the others stand in the order in which they stood. `t` is the tile that showed
/// the pane.
pub proof fn closing_keeps_the_invariant(
    v: PanesView,
    pane: PaneId,
    tree: egui_tiles::Tree<u64>,
    t: u64,
)
    requires
        valid(v),
        closable(v, pane),
        tree::tile_shows(v.tree, t, pane.id),
        tree::closed_tile(v.tree, tree, t),
    ensures
        valid(after_close(v, pane, tree)),
        after_close(v, pane, tree).order == grid::without(v.order, pane),
        after_close(v, pane, tree).order.len() == v.order.len() - 1,
        !after_close(v, pane, tree).order.contains(pane),
        forall|p: PaneId| p != pane ==> (#[trigger] after_close(v, pane, tree).order.contains(p)
            <==> v.order.contains(p)),
{
    let w = after_close(v, pane, tree);
    tree::a_tree_shows_none_twice(v.tree, v.order);
    tree::closing_loses_no_other_pane(v.tree, tree, v.order, pane, t);
    assert(v.order.contains(pane));
    grid::without_keeps_the_others(v.order, pane);
    grid::without_keeps_the_others(v.pinned, pane);
    lemma_term_gone(v.terms, pane);
    assert(w.order.len() >= 1);
    assert forall|i: int| 0 <= i < w.order.len() implies (#[trigger] w.order[i]).id < w.next_id by {
        assert(w.order.contains(w.order[i]));
        let j = v.order.index_of(w.order[i]);
        assert(v.order[j] == w.order[i]);
    }
    assert(w.order.contains(w.order[0]));
}

/// Asking for one more pane keeps the invariant, whatever comes of it: there
/// are never more panes than fit, and a new pane is none of the old ones. It
/// stands behind the one that had the focus, which it takes over, and the others
/// stand as they stood.
pub proof fn splitting_keeps_the_invariant(
    v: PanesView,
    dir: SplitDir,
    cwd: Option<Seq<char>>,
    tree: egui_tiles::Tree<u64>,
)
    requires
        valid(v),
        v.next_id < u64::MAX,
        tree_splits(v, dir, tree),
    ensures
        valid(after_split(v, cwd, tree)),
        split_outcome(v) matches SplitOutcome::Opened(p) ==> {
            let w = after_split(v, cwd, tree);
            &&& !v.order.contains(p)
            &&& w.order == v.order.insert(v.order.index_of(v.focused) + 1, p)
            &&& w.focused == p
        },
{
    let w = after_split(v, cwd, tree);
    let new = PaneId { id: v.next_id };
    assert(!v.order.contains(new)) by {
        if v.order.contains(new) {
            let i = v.order.index_of(new);
            assert(v.order[i].id < v.next_id);
        }
    }
    if split_outcome(v) is Opened {
        let at = v.order.index_of(v.focused) + 1;
        tree::splitting_adds_one_pane(v.tree, tree, v.order, v.focused, new, dir);
        grid::beside_adds_one(v.order, v.focused, new);
        assert(0 <= at <= v.order.len());
        lemma_term_started(v.terms, fresh_term(new, (SPAWN_COLS, SPAWN_ROWS)));
        assert(w.order[at] == new);
        assert forall|i: int| 0 <= i < w.order.len() implies (#[trigger] w.order[i]).id
            < w.next_id by {
            if i < at {
                assert(w.order[i] == v.order[i]);
            } else if i > at {
                assert(w.order[i] == v.order[i - 1]);
            }
        }
        tree::a_tree_shows_none_twice(w.tree, w.order);
        assert(w.order.contains(new));
    }
}

/// Taking over a tree that was drawn keeps the invariant, where every pane hangs
/// in one place and is shown by one tile, all were numbered, and the one with the
/// focus is among them.
pub proof fn rearranging_keeps_the_invariant(v: PanesView, drawn: egui_tiles::Tree<u64>)
    requires
        valid(v),
        tree::linked_once(drawn),
        tree::each_shown_once(drawn),
        forall|i: int|
            0 <= i < tree::listed(drawn).len() ==> (#[trigger] tree::listed(drawn)[i]).id
                < v.next_id,
        tree::listed(drawn).contains(v.focused),
    ensures
        valid(after_drag(v, drawn)),
{
    tree::a_tree_shows_none_twice(drawn, tree::listed(drawn));
}

/// Laying the panes out anew keeps the invariant, and the panes stand in the
/// order in which they stood.
pub proof fn equalizing_keeps_the_invariant(v: PanesView, w: PanesView)
    requires
        valid(v),
        equalizes(v, w),
    ensures
        valid(w),
        w.order == v.order,
{
    if v.order.len() > 1 {
        let (ids, root) = choose|ids: Seq<u64>, root: u64| #[trigger]
            tree::grid_of(w.tree, grid::numbers(v.order), ids, root);
        tree::a_grid_shows_its_panes(w.tree, v.order, ids, root);
    }
}

/// Pinning a tab and unpinning it keep the invariant, and doing both leaves the
/// panes as they were.
pub proof fn pinning_keeps_the_invariant(v: PanesView, pane: PaneId)
    requires
        valid(v),
    ensures
        valid(pin_toggled(v, pane)),
        !v.pinned.contains(pane) ==> pin_toggled(pin_toggled(v, pane), pane) == v,
{
    grid::without_keeps_the_others(v.pinned, pane);
    let p = v.pinned.push(pane);
    if !v.pinned.contains(pane) {
        assert forall|i: int, j: int|
            0 <= i < p.len() && 0 <= j < p.len() && i != j implies p[i] != p[j] by {
            if i < v.pinned.len() {
                assert(v.pinned.contains(v.pinned[i]));
            }
            if j < v.pinned.len() {
                assert(v.pinned.contains(v.pinned[j]));
            }
        }
        assert(p[v.pinned.len() as int] == pane);
        assert(p.contains(pane));
        assert(p.drop_last() =~= v.pinned);
        assert(p.last() == pane);
    }
}

/// Once its terminal is gone a pane has none, and no other pane has two.
pub proof fn lemma_term_gone(terms: Seq<TermView>, pane: PaneId)
    requires
        one_term_each(terms),
    ensures
        one_term_each(without_term(terms, pane)),
        forall|i: int|
            0 <= i < without_term(terms, pane).len() ==> (#[trigger] without_term(
                terms,
                pane,
            )[i]).pane != pane,
{
    let left = without_term(terms, pane);
    if exists|i: int| term_at(terms, pane, i) {
        let k = choose|i: int| term_at(terms, pane, i);
        assert forall|i: int, j: int| 0 <= i < j < left.len() implies (#[trigger] left[i]).pane
            != (#[trigger] left[j]).pane by {
            let a = if i < k {
                i
            } else {
                i + 1
            };
            let b = if j < k {
                j
            } else {
                j + 1
            };
            assert(left[i] == terms[a] && left[j] == terms[b]);
        }
        assert forall|i: int| 0 <= i < left.len() implies (#[trigger] left[i]).pane != pane by {
            let a = if i < k {
                i
            } else {
                i + 1
            };
            assert(left[i] == terms[a]);
            assert(terms[k].pane == pane);
        }
    } else {
        assert forall|i: int| 0 <= i < left.len() implies (#[trigger] left[i]).pane != pane by {
            if left[i].pane == pane {
                lemma_first_term(terms, pane, i);
            }
        }
    }
}

/// Where a pane has a terminal it has a first one.
proof fn lemma_first_term(terms: Seq<TermView>, pane: PaneId, i: int)
    requires
        0 <= i < terms.len(),
        terms[i].pane == pane,
    ensures
        exists|j: int| term_at(terms, pane, j),
    decreases i,
{
    if exists|j: int| 0 <= j < i && (#[trigger] terms[j]).pane == pane {
        let j = choose|j: int| 0 <= j < i && (#[trigger] terms[j]).pane == pane;
        lemma_first_term(terms, pane, j);
    } else {
        assert(term_at(terms, pane, i));
    }
}

/// A pane that gets a new terminal in place of the one it had has one.
pub proof fn lemma_term_started(terms: Seq<TermView>, t: TermView)
    requires
        one_term_each(terms),
    ensures
        one_term_each(without_term(terms, t.pane).push(t)),
{
    let left = without_term(terms, t.pane);
    lemma_term_gone(terms, t.pane);
    let all = left.push(t);
    assert forall|i: int, j: int| 0 <= i < j < all.len() implies (#[trigger] all[i]).pane != (
    #[trigger] all[j]).pane by {
        assert(all[i] == left[i]);
        if j < left.len() {
            assert(all[j] == left[j]);
        }
    }
}

/// Asking for a closed tab back keeps the invariant.
pub proof fn reopening_keeps_the_invariant(
    v: PanesView,
    dir: SplitDir,
    tree: egui_tiles::Tree<u64>,
)
    requires
        valid(v),
        v.next_id < u64::MAX,
        v.closed.len() > 0 ==> tree_splits(v, dir, tree),
    ensures
        valid(after_reopen(v, tree)),
{
    if v.closed.len() > 0 {
        splitting_keeps_the_invariant(v, dir, v.closed.last(), tree);
    }
}

/// A closed tab that could not be opened again is still remembered.
pub proof fn a_refused_reopen_forgets_nothing(v: PanesView, tree: egui_tiles::Tree<u64>)
    requires
        !(split_outcome(v) is Opened),
    ensures
        after_reopen(v, tree).closed == v.closed,
{
}

/// Closing a pane and asking for it back, where the tree has numbers left for two
/// more tiles, opens a pane in the directory the closed one was in, and leaves
/// the memory of closed tabs as it was before, but for the oldest where the
/// memory was full. There are as many panes as before.
pub proof fn reopening_undoes_a_close(
    v: PanesView,
    pane: PaneId,
    t: u64,
    closed: egui_tiles::Tree<u64>,
    dir: SplitDir,
    reopened: egui_tiles::Tree<u64>,
)
    requires
        valid(v),
        v.next_id < u64::MAX,
        closable(v, pane),
        tree::tile_shows(v.tree, t, pane.id),
        tree::closed_tile(v.tree, closed, t),
        tree::has_numbers(closed),
        tree_splits(after_close(v, pane, closed), dir, reopened),
    ensures
        ({
            let c = after_close(v, pane, closed);
            let r = after_reopen(c, reopened);
            &&& r.last_spawn_cwd == (match term_of(v.terms, pane) {
                Some(t) => t.cwd,
                None => None,
            })
            &&& r.order.len() == v.order.len()
            &&& r.closed == (if v.closed.len() < MAX_CLOSED_TAB_HISTORY {
                v.closed
            } else {
                v.closed.skip(1)
            })
        }),
{
    let c = after_close(v, pane, closed);
    closing_keeps_the_invariant(v, pane, closed, t);
    tree::a_tree_shows_none_twice(c.tree, c.order);
    assert(c.order.contains(c.focused));
    assert(tree::shows(c.tree, c.focused.id));
    assert(c.closed.len() > 0);
    splitting_keeps_the_invariant(c, dir, c.closed.last(), reopened);
    let r = after_reopen(c, reopened);
    assert(split_outcome(c) is Opened);
    if v.closed.len() < MAX_CLOSED_TAB_HISTORY {
        assert(r.closed =~= v.closed);
    } else {
        assert(r.closed =~= v.closed.skip(1));
    }
}

/// Showing a pane alone twice shows all panes again.
pub proof fn zooming_twice_shows_all(v: PanesView)
    requires
        v.zoomed is None,
    ensures
        zoom_toggled(v).zoomed == Some(v.focused),
        zoom_toggled(zoom_toggled(v)) == v,
{
}

/// The panes after the focus moved on `n` times.
pub open spec fn focused_after(v: PanesView, n: nat) -> PanesView
    decreases n,
{
    if n == 0 {
        v
    } else {
        focused_next(focused_after(v, (n - 1) as nat))
    }
}

/// Moving the focus on goes through every pane in turn and comes back to where
/// it was.
pub proof fn moving_on_visits_every_pane(v: PanesView, n: nat)
    requires
        valid(v),
    ensures
        focused_after(v, n).order == v.order,
        focused_after(v, n).focused == v.order[(first_index(v.order, v.focused) + n) % (
        v.order.len() as int)],
    decreases n,
{
    let len = v.order.len() as int;
    let start = first_index(v.order, v.focused);
    lemma_first_index(v.order, v.order.index_of(v.focused));
    assert(v.order[v.order.index_of(v.focused)] == v.focused);
    if n == 0 {
        vstd::arithmetic::div_mod::lemma_small_mod(start as nat, len as nat);
    } else {
        let w = focused_after(v, (n - 1) as nat);
        moving_on_visits_every_pane(v, (n - 1) as nat);
        let i = (start + (n - 1)) % len;
        assert(0 <= i < len) by {
            vstd::arithmetic::div_mod::lemma_mod_bound(start + (n - 1), len);
        }
        assert(w.order.contains(w.focused));
        lemma_first_index(w.order, i);
        assert((i + 1) % len == (start + n) % len) by {
            vstd::arithmetic::div_mod::lemma_add_mod_noop(start + (n - 1), 1, len);
            if len > 1 {
                vstd::arithmetic::div_mod::lemma_small_mod(1, len as nat);
            }
        }
        if len == 1 {
            assert((start + n) % len == 0);
        }
    }
}

/// Moving the focus in a direction keeps the invariant, where the candidates are
/// open panes.
pub proof fn moving_in_a_direction_keeps_the_invariant(v: PanesView, candidates: Seq<Candidate>)
    requires
        valid(v),
        forall|i: int|
            0 <= i < candidates.len() ==> v.order.contains((#[trigger] candidates[i]).pane),
    ensures
        valid(directed(v, candidates)),
{
}

/// What is heard of a terminal changes no other, and keeps the invariant.
pub proof fn news_of_a_terminal_keeps_the_invariant(v: PanesView, t: TermView)
    requires
        valid(v),
    ensures
        valid(PanesView { terms: heard_of(v.terms, t), ..v }),
        heard_of(v.terms, t).len() == v.terms.len(),
        forall|i: int|
            0 <= i < v.terms.len() ==> (#[trigger] heard_of(v.terms, t)[i]).pane
                == v.terms[i].pane,
        forall|i: int|
            0 <= i < v.terms.len() && v.terms[i].pane != t.pane ==> (#[trigger] heard_of(
                v.terms,
                t,
            )[i]) == v.terms[i],
{
    let w = heard_of(v.terms, t);
    if exists|i: int| term_at(v.terms, t.pane, i) {
        let k = choose|i: int| term_at(v.terms, t.pane, i);
        assert forall|i: int, j: int| 0 <= i < j < w.len() implies (#[trigger] w[i]).pane != (
        #[trigger] w[j]).pane by {
            assert(v.terms[i].pane == w[i].pane && v.terms[j].pane == w[j].pane);
        }
    }
}

/// Moving the focus on keeps the invariant: the focus stays among the panes.
pub proof fn moving_on_keeps_the_invariant(v: PanesView)
    requires
        valid(v),
    ensures
        valid(focused_next(v)),
{
    moving_on_visits_every_pane(v, 1);
    assert(focused_after(v, 1) == focused_next(focused_after(v, 0)));
    let i = (first_index(v.order, v.focused) + 1) % (v.order.len() as int);
    vstd::arithmetic::div_mod::lemma_mod_bound(
        first_index(v.order, v.focused) + 1,
        v.order.len() as int,
    );
    assert(v.order.contains(v.order[i]));
}

/// In a list without duplicates a pane stands first where it stands at all.
proof fn lemma_first_index(order: Seq<PaneId>, i: int)
    requires
        order.no_duplicates(),
        0 <= i < order.len(),
    ensures
        first_index(order, order[i]) == i,
{
    let f = first_index(order, order[i]);
    assert(0 <= i < order.len() && order[i] == order[i] && forall|j: int|
        0 <= j < i ==> #[trigger] order[j] != order[i]);
    assert(0 <= f < order.len() && order[f] == order[i]);
}

/// The closed tabs that are remembered: the latest behind the others, sixteen at
/// most, the oldest going first.
pub proof fn sixteen_closed_tabs_are_remembered(
    closed: Seq<Option<Seq<char>>>,
    cwd: Option<Seq<char>>,
)
    ensures
        remembered(closed, cwd).len() > 0 && remembered(closed, cwd).last() == cwd,
        closed.len() < 16 ==> remembered(closed, cwd).len() == closed.len() + 1 && remembered(
            closed,
            cwd,
        ).drop_last() == closed,
        closed.len() >= 16 ==> remembered(closed, cwd).len() == closed.len() && remembered(
            closed,
            cwd,
        ).drop_last() == closed.skip(1),
{
    if closed.len() < 16 {
        assert(remembered(closed, cwd).drop_last() =~= closed);
    } else {
        assert(remembered(closed, cwd).drop_last() =~= closed.skip(1));
    }
}

/// The focus stays on a pane that is open and goes to the first one otherwise.
pub proof fn the_focus_falls_back_to_the_first(focused: PaneId, order: Seq<PaneId>)
    ensures
        order.contains(focused) ==> anchored(focused, order) == focused,
        !order.contains(focused) && order.len() > 0 ==> anchored(focused, order) == order[0],
        order.len() == 0 ==> anchored(focused, order) == focused,
{
}

/// The terminal of a pane is the first one of that pane, and there is none where
/// no terminal is.
pub proof fn a_terminal_belongs_to_its_pane(terms: Seq<TermView>, pane: PaneId, i: int)
    ensures
        0 <= i < terms.len() && terms[i].pane == pane && (forall|j: int|
            0 <= j < i ==> (#[trigger] terms[j]).pane != pane) ==> term_of(terms, pane) == Some(
            terms[i],
        ) && without_term(terms, pane) == terms.remove(i),
        (forall|j: int| 0 <= j < terms.len() ==> (#[trigger] terms[j]).pane != pane) ==> term_of(
            terms,
            pane,
        ) is None && without_term(terms, pane) == terms,
        term_of(terms, pane) matches Some(t) ==> t.pane == pane && terms.contains(t),
{
    if 0 <= i < terms.len() && terms[i].pane == pane && (forall|j: int|
        0 <= j < i ==> (#[trigger] terms[j]).pane != pane) {
        assert(term_at(terms, pane, i));
        assert forall|j: int| term_at(terms, pane, j) implies j == i by {
            if j < i {
                assert(terms[j].pane != pane);
            }
            if i < j {
                assert(terms[i].pane != pane);
            }
        }
    }
    if forall|j: int| 0 <= j < terms.len() ==> (#[trigger] terms[j]).pane != pane {
        assert forall|j: int| !term_at(terms, pane, j) by {}
    }
}

/// A terminal that has just been started runs no command and has reported
/// nothing.
pub proof fn a_fresh_terminal_has_reported_nothing(pane: PaneId, size: (u16, u16))
    ensures
        fresh_term(pane, size).pane == pane && fresh_term(pane, size).size == size,
        !fresh_term(pane, size).busy,
        fresh_term(pane, size).title is None && fresh_term(pane, size).cwd is None && fresh_term(
            pane,
            size,
        ).grid_text is None,
{
}

/// What is heard of a terminal is what is known of it from then on.
pub proof fn the_latest_news_count(terms: Seq<TermView>, t: TermView)
    ensures
        term_of(terms, t.pane) is Some ==> term_of(heard_of(terms, t), t.pane) == Some(t),
        term_of(terms, t.pane) is None ==> heard_of(terms, t) == terms,
{
    if exists|i: int| term_at(terms, t.pane, i) {
        let k = choose|i: int| term_at(terms, t.pane, i);
        let w = heard_of(terms, t);
        assert(w[k] == t);
        assert forall|j: int| 0 <= j < k implies (#[trigger] w[j]).pane != t.pane by {
            assert(w[j] == terms[j]);
            assert(terms[j].pane != t.pane);
        }
        a_terminal_belongs_to_its_pane(w, t.pane, k);
    }
}

/// The busy panes are counted one by one.
pub proof fn busy_panes_are_counted(a: Seq<TermView>, b: Seq<TermView>, t: TermView)
    ensures
        busy_count(Seq::empty()) == 0,
        t.busy ==> busy_count(a.push(t)) == busy_count(a) + 1,
        !t.busy ==> busy_count(a.push(t)) == busy_count(a),
        busy_count(a + b) == busy_count(a) + busy_count(b),
        busy_count(a) <= a.len(),
    decreases a.len() + b.len(),
{
    assert(a.push(t).drop_last() =~= a);
    assert(a.push(t).last() == t);
    if b.len() == 0 {
        assert(a + b =~= a);
    } else {
        busy_panes_are_counted(a, b.drop_last(), t);
        assert((a + b).drop_last() =~= a + b.drop_last());
        assert((a + b).last() == b.last());
    }
    if a.len() > 0 {
        busy_panes_are_counted(a.drop_last(), Seq::empty(), t);
    }
}

/// A pane can be closed where the tree shows it and it is not the only one.
pub proof fn the_only_pane_stays(v: PanesView, pane: PaneId)
    ensures
        v.order.len() <= 1 ==> !closable(v, pane),
        !tree::shows(v.tree, pane.id) ==> !closable(v, pane),
        v.order.len() > 1 && tree::shows(v.tree, pane.id) ==> closable(v, pane),
{
}

/// Closing a pane takes its terminal, its pin and its zoom with it, drops the
/// selection, remembers its directory, and leaves all else as it was.
pub proof fn closing_takes_what_is_the_panes_own(
    v: PanesView,
    pane: PaneId,
    tree: egui_tiles::Tree<u64>,
)
    requires
        one_term_each(v.terms),
    ensures
        ({
            let w = after_close(v, pane, tree);
            &&& w.tree == tree && w.order == tree::listed(tree)
            &&& term_of(w.terms, pane) is None
            &&& !w.pinned.contains(pane)
            &&& w.selection is None
            &&& v.zoomed == Some(pane) ==> w.zoomed is None
            &&& v.zoomed != Some(pane) ==> w.zoomed == v.zoomed
            &&& w.closed.len() > 0
            &&& term_of(v.terms, pane) is None ==> w.closed.last() is None
            &&& term_of(v.terms, pane) matches Some(t) ==> w.closed.last() == t.cwd
            &&& w.order.contains(v.focused) ==> w.focused == v.focused
            &&& !w.order.contains(v.focused) && w.order.len() > 0 ==> w.focused == w.order[0]
            &&& w.next_id == v.next_id && w.pending == v.pending && w.restored == v.restored
            &&& w.last_spawn_cwd == v.last_spawn_cwd && w.line == v.line
        }),
        forall|p: PaneId|
            p != pane ==> (#[trigger] after_close(v, pane, tree).pinned.contains(p)
                <==> v.pinned.contains(p)),
{
    let w = after_close(v, pane, tree);
    let cwd = match term_of(v.terms, pane) {
        Some(t) => t.cwd,
        None => None,
    };
    grid::without_keeps_the_others(v.pinned, pane);
    lemma_term_gone(v.terms, pane);
    sixteen_closed_tabs_are_remembered(v.closed, cwd);
    a_terminal_belongs_to_its_pane(w.terms, pane, 0);
}

/// There is room for six panes. With room, one more opens where the tree shows
/// the focused one and has numbers left, and gets the next number.
pub proof fn six_panes_fit(v: PanesView)
    ensures
        v.order.len() >= 6 ==> split_outcome(v) == SplitOutcome::Full,
        v.order.len() < 6 && tree::shows(v.tree, v.focused.id) && tree::has_numbers(v.tree)
            ==> split_outcome(v) == SplitOutcome::Opened(PaneId { id: v.next_id }),
        v.order.len() < 6 && !(tree::shows(v.tree, v.focused.id) && tree::has_numbers(v.tree))
            ==> split_outcome(v) == SplitOutcome::Refused,
{
}

/// A pane that opens has the focus and a fresh terminal of eighty columns and
/// twenty-four rows, and its directory is noted; one that was refused uses up its
/// number; without room nothing changes.
pub proof fn an_opened_pane_is_set_up(
    v: PanesView,
    cwd: Option<Seq<char>>,
    tree: egui_tiles::Tree<u64>,
)
    requires
        v.next_id < u64::MAX,
    ensures
        ({
            let w = after_split(v, cwd, tree);
            &&& split_outcome(v) is Full ==> w == v
            &&& split_outcome(v) is Refused ==> w == (PanesView {
                next_id: (v.next_id + 1) as u64,
                ..v
            })
            &&& split_outcome(v) matches SplitOutcome::Opened(new) ==> {
                &&& new.id == v.next_id && w.next_id == v.next_id + 1
                &&& w.tree == tree && w.order == tree::listed(tree)
                &&& w.focused == new && w.last_spawn_cwd == cwd
                &&& w.terms.len() > 0 && w.terms.last().pane == new && w.terms.last().size == (
                    80u16,
                    24u16,
                ) && !w.terms.last().busy
                &&& w.pinned == v.pinned && w.pending == v.pending && w.restored == v.restored
                &&& w.closed == v.closed && w.zoomed == v.zoomed && w.selection == v.selection
                &&& w.line == v.line
            }
        }),
{
}

/// Where a pane opens, the tile of the focused one is split for it, the way that
/// was asked for.
pub proof fn the_focused_tile_is_split(
    v: PanesView,
    dir: SplitDir,
    tree: egui_tiles::Tree<u64>,
    new: PaneId,
)
    requires
        tree_splits(v, dir, tree),
        split_outcome(v) == SplitOutcome::Opened(new),
    ensures
        tree::splits_tile(v.tree, tree, v.focused, new, dir),
{
}

/// The last closed tab is opened again in its directory and then forgotten; where
/// none was closed nothing happens.
pub proof fn the_last_closed_tab_comes_back(v: PanesView, tree: egui_tiles::Tree<u64>)
    ensures
        v.closed.len() == 0 ==> after_reopen(v, tree) == v,
        v.closed.len() > 0 && split_outcome(v) is Opened ==> {
            let w = after_reopen(v, tree);
            &&& w.last_spawn_cwd == v.closed.last()
            &&& w.closed == v.closed.take(v.closed.len() - 1)
            &&& w == (PanesView { closed: w.closed, ..after_split(v, v.closed.last(), tree) })
        },
        split_outcome(v) is Full ==> after_reopen(v, tree) == v,
{
    if v.closed.len() > 0 {
        assert(v.closed.drop_last() =~= v.closed.take(v.closed.len() - 1));
    }
}

/// A pane that is given the focus has it; the line being typed is kept in the
/// pane it was typed in and forgotten in another.
pub proof fn the_focus_goes_where_it_is_given(v: PanesView, pane: PaneId)
    ensures
        focused_on(v, pane).focused == pane,
        pane == v.focused ==> focused_on(v, pane) == v,
        pane != v.focused ==> focused_on(v, pane).line.len() == 0,
        focused_on(v, pane) == (PanesView {
            focused: pane,
            line: focused_on(v, pane).line,
            ..v
        }),
{
}

/// Moving on goes to the pane that stands behind the focused one, from the last
/// to the first; a pane alone keeps the focus.
pub proof fn moving_on_goes_to_the_next_pane(v: PanesView, i: int)
    requires
        v.order.no_duplicates(),
        0 <= i < v.order.len(),
        v.order[i] == v.focused,
    ensures
        v.order.len() == 1 ==> focused_next(v) == v,
        i + 1 < v.order.len() ==> focused_next(v).focused == v.order[i + 1],
        v.order.len() > 1 && i + 1 == v.order.len() ==> focused_next(v).focused == v.order[0],
        focused_next(v).order == v.order,
        v.order.len() > 1 ==> focused_next(v).line.len() == 0,
{
    lemma_first_index(v.order, i);
    let len = v.order.len() as int;
    if i + 1 < len {
        vstd::arithmetic::div_mod::lemma_small_mod((i + 1) as nat, len as nat);
    } else {
        vstd::arithmetic::div_mod::lemma_mod_self_0(len);
    }
}

/// A tree that was drawn is taken over with one to six panes, and with any other
/// number nothing changes.
pub proof fn a_drawn_tree_is_taken_over(v: PanesView, drawn: egui_tiles::Tree<u64>)
    ensures
        stands(drawn) <==> 1 <= tree::listed(drawn).len() && tree::listed(drawn).len() <= 6,
        1 <= tree::listed(drawn).len() <= 6 ==> after_drag(v, drawn) == (PanesView {
            tree: drawn,
            order: tree::listed(drawn),
            ..v
        }),
        tree::listed(drawn).len() == 0 || tree::listed(drawn).len() > 6 ==> after_drag(v, drawn)
            == v,
{
}

/// A tab that is not pinned is pinned behind the others, and one that is is
/// unpinned; the others stay as they are.
pub proof fn a_pin_is_put_and_taken(v: PanesView, pane: PaneId)
    ensures
        !v.pinned.contains(pane) ==> pin_toggled(v, pane).pinned == v.pinned.push(pane),
        v.pinned.contains(pane) ==> !pin_toggled(v, pane).pinned.contains(pane),
        forall|p: PaneId|
            p != pane ==> (#[trigger] pin_toggled(v, pane).pinned.contains(p)
                <==> v.pinned.contains(p)),
        pin_toggled(v, pane) == (PanesView { pinned: pin_toggled(v, pane).pinned, ..v }),
{
    grid::without_keeps_the_others(v.pinned, pane);
    let more = v.pinned.push(pane);
    assert forall|p: PaneId| p != pane implies (#[trigger] pin_toggled(v, pane).pinned.contains(p)
        <==> v.pinned.contains(p)) by {
        if v.pinned.contains(p) && !v.pinned.contains(pane) {
            assert(more[v.pinned.index_of(p)] == p);
        }
        if more.contains(p) {
            assert(v.pinned[more.index_of(p)] == p);
        }
    }
}

/// A zoomed pane that is open is shown alone, in either view; else the tabs show
/// the focused pane alone and the grid shows all.
pub proof fn the_zoomed_pane_is_shown_alone(v: PanesView, p: PaneId, tabbed: bool)
    ensures
        v.zoomed == Some(p) && v.order.contains(p) ==> on_display(v, tabbed) == Shown::One(p),
        v.zoomed is None ==> on_display(v, false) == Shown::All,
        v.zoomed is None && v.order.contains(v.focused) ==> on_display(v, true) == Shown::One(
            v.focused,
        ),
        v.zoomed == Some(p) && !v.order.contains(p) ==> on_display(v, false) == Shown::All,
        v.zoomed == Some(p) && !v.order.contains(p) && v.order.contains(v.focused) ==> on_display(
            v,
            true,
        ) == Shown::One(v.focused),
        v.zoomed is None && v.order.len() > 0 && !v.order.contains(v.focused) ==> on_display(
            v,
            true,
        ) == Shown::One(v.order[0]),
{
}

/// A tab shows the title its own terminal's program set, and its pane's name where
/// it set none or there is no terminal.
pub proof fn a_tab_shows_its_own_title(v: PanesView, pane: PaneId)
    ensures
        term_of(v.terms, pane) is None ==> tab_text(v, pane) == tabs::shown(pane, None),
        term_of(v.terms, pane) matches Some(t) ==> tab_text(v, pane) == tabs::shown(pane, t.title),
{
}

/// The focus moves to the nearest pane in the direction, where there is one, and
/// stays where there is none.
pub proof fn the_focus_moves_to_the_nearest_pane(
    v: PanesView,
    candidates: Seq<Candidate>,
    i: int,
)
    ensures
        grid_interaction::nearest_at(candidates, v.focused, i) ==> directed(v, candidates).focused
            == candidates[i].pane && directed(v, candidates).line.len() == 0,
        (forall|j: int|
            0 <= j < candidates.len() ==> !((#[trigger] candidates[j]).pane != v.focused
                && candidates[j].in_dir && candidates[j].overlap)) ==> directed(v, candidates) == v,
{
    if grid_interaction::nearest_at(candidates, v.focused, i) {
        let k = choose|k: int| grid_interaction::nearest_at(candidates, v.focused, k);
        if k < i {
            assert(grid_interaction::nearer(candidates[i], candidates[k]));
            assert(!grid_interaction::nearer(candidates[i], candidates[k]));
        }
        if i < k {
            assert(grid_interaction::nearer(candidates[k], candidates[i]));
            assert(!grid_interaction::nearer(candidates[k], candidates[i]));
        }
    }
    if forall|j: int|
        0 <= j < candidates.len() ==> !((#[trigger] candidates[j]).pane != v.focused
            && candidates[j].in_dir && candidates[j].overlap) {
        assert forall|j: int| !grid_interaction::nearest_at(candidates, v.focused, j) by {}
    }
}

/// A session starts with one pane, numbered zero, that has the focus and waits for
/// its size; nothing is closed, zoomed, selected or typed.
pub proof fn a_session_starts_with_one_pane(v: PanesView)
    requires
        first_panes(v),
    ensures
        v.order.len() == 1 && v.order[0].id == 0 && v.focused.id == 0 && v.next_id == 1,
        v.pending.len() == 1 && v.pending[0].id == 0,
        v.terms.len() == 0 && v.pinned.len() == 0 && v.restored.len() == 0 && v.closed.len() == 0,
        v.zoomed is None && v.selection is None && v.last_spawn_cwd is None && v.line.len() == 0,
{
}

/// Only the focused pane stays zoomed.
pub proof fn only_the_focused_pane_stays_zoomed(p: &mut Panes)
    requires
        call_ensures(Panes::reconcile_zoom, (p,), ()),
    ensures
        old(p)@.zoomed == Some(old(p)@.focused) ==> final(p)@ == old(p)@,
        old(p)@.zoomed != Some(old(p)@.focused) ==> final(p)@.zoomed is None,
        final(p)@ == (PanesView { zoomed: final(p)@.zoomed, ..old(p)@ }),
{
}

/// A pane has the size and the screen of its terminal, where it has one, and a
/// label where it is shown.
pub proof fn a_pane_is_read_from_its_terminal(
    p: &Panes,
    pane: PaneId,
    size: Option<(u16, u16)>,
    grid_text: Option<String>,
    label: Option<String>,
)
    requires
        call_ensures(Panes::pane_size, (p, pane), size),
        call_ensures(Panes::pane_grid_text, (p, pane), grid_text),
        call_ensures(Panes::tab_label_for_pane, (p, pane), label),
    ensures
        size is Some <==> term_of(p@.terms, pane) is Some,
        term_of(p@.terms, pane) matches Some(t) ==> size == Some(t.size) && text::opt_text(
            grid_text,
        ) == t.grid_text,
        term_of(p@.terms, pane) is None ==> grid_text is None,
        label is Some <==> p@.order.contains(pane),
{
}

/// From the first place the focused pane stands at, the focus moves on to the pane
/// behind it, and from the end to the first; where the focused pane does not stand
/// in the order, it moves to the second.
pub proof fn moving_on_goes_by_the_first_place(v: PanesView, i: int)
    requires
        v.order.len() >= 2,
        0 <= i < v.order.len(),
    ensures
        v.order[i] == v.focused && i + 1 < v.order.len() && (forall|j: int|
            0 <= j < i ==> #[trigger] v.order[j] != v.focused) ==> focused_next(v).focused
            == v.order[i + 1],
        v.order[v.order.len() - 1] == v.focused && (forall|j: int|
            0 <= j < v.order.len() - 1 ==> #[trigger] v.order[j] != v.focused) ==> focused_next(
            v,
        ).focused == v.order[0],
        !v.order.contains(v.focused) ==> focused_next(v).focused == v.order[1],
{
    let n = v.order.len() as int;
    let last = n - 1;
    if v.order[i] == v.focused && i + 1 < n && (forall|j: int|
        0 <= j < i ==> #[trigger] v.order[j] != v.focused) {
        assert(v.order.contains(v.focused));
        let k = first_index(v.order, v.focused);
        assert(v.order[i] == v.focused);
        assert(k == i);
        assert((i + 1) % n == i + 1) by (nonlinear_arith)
            requires
                0 <= i,
                i + 1 < n,
        ;
    }
    if v.order[last] == v.focused && (forall|j: int|
        0 <= j < last ==> #[trigger] v.order[j] != v.focused) {
        assert(v.order.contains(v.focused));
        let k = first_index(v.order, v.focused);
        assert(v.order[last] == v.focused);
        assert(k == last);
        assert((last + 1) % n == 0) by (nonlinear_arith)
            requires
                last + 1 == n,
                n >= 2,
        ;
    }
    if !v.order.contains(v.focused) {
        assert(1int % n == 1) by (nonlinear_arith)
            requires
                n >= 2,
        ;
    }
}

} // verus!
