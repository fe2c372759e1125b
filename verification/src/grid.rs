//! Pane identifiers and lists of panes.

use vstd::prelude::*;

verus! {

/// The most panes the grid holds at once.
pub const MAX_PANES: usize = 6;

/// The identity of a pane, never reused within a session.
#[derive(Clone, Copy, Debug, PartialEq, Eq, Structural, Hash)]
pub struct PaneId {
    pub id: u64,
}

impl PaneId {
    /// The pane with this number.
    pub fn new(id: u64) -> (r: PaneId)
        ensures
            r.id == id,
    {
        PaneId { id }
    }

    /// The number behind the identity.
    pub fn raw(&self) -> (r: u64)
        ensures
            r == self.id,
    {
        self.id
    }
}

/// The axis a pane is split along.
#[derive(Clone, Copy, Debug, PartialEq, Eq, Structural)]
pub enum SplitDir {
    /// The new pane opens beside the old one.
    Horizontal,
    /// The new pane opens below the old one.
    Vertical,
}

/// A spatial direction for moving the keyboard focus between panes.
#[derive(Clone, Copy, Debug, PartialEq, Eq, Structural)]
pub enum Direction {
    Left,
    Right,
    Up,
    Down,
}

/// The panes of the list but for one.
pub open spec fn without(panes: Seq<PaneId>, pane: PaneId) -> Seq<PaneId>
    decreases panes.len(),
{
    if panes.len() == 0 {
        panes
    } else if panes.last() == pane {
        without(panes.drop_last(), pane)
    } else {
        without(panes.drop_last(), pane).push(panes.last())
    }
}

/// What is left holds the other panes and no more, each as often as before, and
/// in the same order.
pub proof fn without_keeps_the_others(panes: Seq<PaneId>, pane: PaneId)
    ensures
        forall|p: PaneId| #[trigger]
            without(panes, pane).contains(p) <==> panes.contains(p) && p != pane,
        without(panes, pane).len() <= panes.len(),
        panes.no_duplicates() ==> without(panes, pane).no_duplicates(),
        panes.no_duplicates() && panes.contains(pane) ==> without(panes, pane).len()
            == panes.len() - 1,
        !panes.contains(pane) ==> without(panes, pane) == panes,
    decreases panes.len(),
{
    if panes.len() > 0 {
        let rest = panes.drop_last();
        let left = without(rest, pane);
        without_keeps_the_others(rest, pane);
        assert(panes =~= rest.push(panes.last()));
        assert forall|p: PaneId| #[trigger]
            without(panes, pane).contains(p) <==> panes.contains(p) && p != pane by {
            assert(panes.contains(p) <==> rest.contains(p) || p == panes.last()) by {
                if rest.contains(p) {
                    let i = rest.index_of(p);
                    assert(panes[i] == p);
                }
                if p == panes.last() {
                    assert(panes[panes.len() - 1] == p);
                }
                if panes.contains(p) {
                    let i = panes.index_of(p);
                    if i < rest.len() {
                        assert(rest[i] == p);
                    }
                }
            }
            if panes.last() != pane {
                assert(left.push(panes.last()).contains(p) <==> left.contains(p) || p
                    == panes.last()) by {
                    if left.contains(p) {
                        let i = left.index_of(p);
                        assert(left.push(panes.last())[i] == p);
                    }
                    assert(left.push(panes.last())[left.len() as int] == panes.last());
                    if left.push(panes.last()).contains(p) {
                        let i = left.push(panes.last()).index_of(p);
                        if i < left.len() {
                            assert(left[i] == p);
                        }
                    }
                }
            }
        }
        if panes.no_duplicates() {
            assert(rest.no_duplicates());
            assert(!rest.contains(panes.last())) by {
                if rest.contains(panes.last()) {
                    let i = rest.index_of(panes.last());
                    assert(panes[i] == panes[panes.len() - 1]);
                }
            }
            if panes.last() != pane {
                assert(!left.contains(panes.last()));
                let out = left.push(panes.last());
                assert forall|i: int, j: int|
                    0 <= i < out.len() && 0 <= j < out.len() && i != j implies out[i]
                    != out[j] by {
                    if i == left.len() {
                        assert(left.contains(left[j]));
                    }
                    if j == left.len() {
                        assert(left.contains(left[i]));
                    }
                }
            }
            if panes.contains(pane) && panes.last() != pane {
                let i = panes.index_of(pane);
                assert(rest[i] == pane);
            }
        }
        if !panes.contains(pane) {
            assert(panes[panes.len() - 1] != pane);
            assert(!rest.contains(pane)) by {
                if rest.contains(pane) {
                    let i = rest.index_of(pane);
                    assert(panes[i] == pane);
                }
            }
        }
    }
}

/// The panes of the list but for one.
pub fn without_pane(panes: &Vec<PaneId>, pane: PaneId) -> (r: Vec<PaneId>)
    ensures
        r@ == without(panes@, pane),
{
    let mut out: Vec<PaneId> = Vec::new();
    let mut i: usize = 0;
    while i < panes.len()
        invariant
            i <= panes.len(),
            out@ == without(panes@.take(i as int), pane),
        decreases panes.len() - i,
    {
        assert(panes@.take(i + 1).drop_last() =~= panes@.take(i as int));
        if panes[i] != pane {
            out.push(panes[i]);
        }
        i += 1;
    }
    assert(panes@.take(panes@.len() as int) =~= panes@);
    out
}

/// A copy of the list.
pub fn copied_panes(panes: &Vec<PaneId>) -> (r: Vec<PaneId>)
    ensures
        r@ == panes@,
{
    let mut out: Vec<PaneId> = Vec::new();
    let mut i: usize = 0;
    while i < panes.len()
        invariant
            i <= panes.len(),
            out@ == panes@.take(i as int),
        decreases panes.len() - i,
    {
        out.push(panes[i]);
        i += 1;
    }
    out
}

/// Where `pane` first stands in the list.
pub fn position_of(panes: &Vec<PaneId>, pane: PaneId) -> (r: Option<usize>)
    ensures
        r is Some <==> panes@.contains(pane),
        r matches Some(i) ==> i < panes@.len() && panes@[i as int] == pane && forall|j: int|
            0 <= j < i ==> panes@[j] != pane,
{
    let mut i: usize = 0;
    while i < panes.len()
        invariant
            i <= panes.len(),
            forall|j: int| 0 <= j < i ==> panes@[j] != pane,
        decreases panes.len() - i,
    {
        if panes[i] == pane {
            assert(panes@[i as int] == pane);
            return Some(i);
        }
        i += 1;
    }
    None
}

/// The list with `new` behind `pane`.
pub open spec fn beside(panes: Seq<PaneId>, pane: PaneId, new: PaneId) -> Seq<PaneId>
    decreases panes.len(),
{
    if panes.len() == 0 {
        panes
    } else if panes.last() == pane {
        beside(panes.drop_last(), pane, new).push(pane).push(new)
    } else {
        beside(panes.drop_last(), pane, new).push(panes.last())
    }
}

/// A new pane behind one of the list makes the list longer by that pane, and
/// changes nothing else about it.
pub proof fn beside_adds_one(panes: Seq<PaneId>, pane: PaneId, new: PaneId)
    requires
        panes.no_duplicates(),
        !panes.contains(new),
    ensures
        !panes.contains(pane) ==> beside(panes, pane, new) == panes,
        panes.contains(pane) ==> beside(panes, pane, new) == panes.insert(
            panes.index_of(pane) + 1,
            new,
        ),
    decreases panes.len(),
{
    if panes.len() > 0 {
        let rest = panes.drop_last();
        assert(rest.no_duplicates());
        assert(!rest.contains(new)) by {
            if rest.contains(new) {
                let i = rest.index_of(new);
                assert(panes[i] == new);
            }
        }
        beside_adds_one(rest, pane, new);
        if panes.last() == pane {
            assert(!rest.contains(pane)) by {
                if rest.contains(pane) {
                    let i = rest.index_of(pane);
                    assert(panes[i] == panes[panes.len() - 1]);
                }
            }
            assert(panes[panes.len() - 1] == pane);
            assert(panes.index_of(pane) == panes.len() - 1) by {
                let i = panes.index_of(pane);
                assert(panes[i] == pane);
            }
            assert(beside(panes, pane, new) =~= panes.insert(panes.len() as int, new));
        } else if panes.contains(pane) {
            let i = panes.index_of(pane);
            assert(panes[i] == pane);
            assert(i < rest.len());
            assert(rest[i] == pane);
            assert(rest.contains(pane));
            let j = rest.index_of(pane);
            assert(rest[j] == pane);
            assert(panes[j] == pane);
            assert(i == j);
            assert(beside(panes, pane, new) =~= panes.insert(i + 1, new));
        } else {
            assert(!rest.contains(pane)) by {
                if rest.contains(pane) {
                    let i = rest.index_of(pane);
                    assert(panes[i] == pane);
                }
            }
            assert(beside(panes, pane, new) =~= panes);
        }
    }
}

/// The numbers of a list of panes.
pub open spec fn numbers(panes: Seq<PaneId>) -> Seq<u64> {
    panes.map_values(|p: PaneId| p.id)
}

/// Taking a pane out leaves the others as they stand: of two lists in a row what
/// is left of each, and of one pane all or nothing.
pub proof fn taking_a_pane_out_keeps_the_order(
    a: Seq<PaneId>,
    b: Seq<PaneId>,
    pane: PaneId,
    p: PaneId,
)
    ensures
        without(a + b, pane) == without(a, pane) + without(b, pane),
        without(seq![pane], pane).len() == 0,
        p != pane ==> without(seq![p], pane) == seq![p],
    decreases b.len(),
{
    reveal_with_fuel(without, 2);
    assert(seq![pane].drop_last() =~= Seq::empty());
    assert(seq![p].drop_last() =~= Seq::empty());
    assert(seq![pane].last() == pane && seq![p].last() == p);
    assert(Seq::<PaneId>::empty().push(p) =~= seq![p]);
    if b.len() == 0 {
        assert(a + b =~= a);
        assert(without(a, pane) + without(b, pane) =~= without(a, pane));
    } else {
        taking_a_pane_out_keeps_the_order(a, b.drop_last(), pane, p);
        assert((a + b).drop_last() =~= a + b.drop_last());
        assert((a + b).last() == b.last());
        assert(without(a + b, pane) =~= without(a, pane) + without(b, pane));
    }
}

/// The numbers of a list of panes are theirs, one for one.
pub proof fn panes_are_numbered_one_for_one(panes: Seq<PaneId>, i: int)
    requires
        0 <= i < panes.len(),
    ensures
        numbers(panes).len() == panes.len(),
        numbers(panes)[i] == panes[i].id,
        MAX_PANES == 6,
{
}

} // verus!
