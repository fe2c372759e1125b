//! The tiling tree the panes live in: what it holds, what it shows, and how a
//! pane is put into it and taken out of it.

use crate::grid;
use crate::grid::{PaneId, SplitDir};
use vstd::prelude::*;

verus! {

/// The tiling tree of egui_tiles.
#[verifier::external_type_specification]
#[verifier::external_body]
#[verifier::reject_recursive_types(Pane)]
pub struct ExTree<Pane>(egui_tiles::Tree<Pane>);

/// The pane tiles stored in a tree: from the number of the tile to the pane it
/// shows.
pub uninterp spec fn tree_panes(tree: egui_tiles::Tree<u64>) -> Map<u64, u64>;

/// The containers stored in a tree: from the number of the tile to the numbers
/// of its children, in their order.
pub uninterp spec fn tree_containers(tree: egui_tiles::Tree<u64>) -> Map<u64, Seq<u64>>;

/// The containers that lay their children out in a line: whether the line runs
/// from left to right, and not from top to bottom.
pub uninterp spec fn tree_lines(tree: egui_tiles::Tree<u64>) -> Map<u64, bool>;

/// The number of the tile at the top of a tree, if it has one.
pub uninterp spec fn tree_root(tree: egui_tiles::Tree<u64>) -> Option<u64>;

/// Whether the tile `t` of the tree shows `pane`.
pub open spec fn tile_shows(tree: egui_tiles::Tree<u64>, t: u64, pane: u64) -> bool {
    tree_panes(tree).contains_key(t) && tree_panes(tree)[t] == pane
}

/// Whether some tile that is stored in the tree shows `pane`.
pub open spec fn shows(tree: egui_tiles::Tree<u64>, pane: u64) -> bool {
    exists|t: u64| #[trigger] tile_shows(tree, t, pane)
}

/// The pane tiles met on a walk: the tiles of `todo` one after the other, each
/// container followed by what is below it. A container is entered once, and no
/// more than `budget` of them; a number under which nothing is stored is passed
/// over.
pub open spec fn met(
    panes: Map<u64, u64>,
    containers: Map<u64, Seq<u64>>,
    todo: Seq<u64>,
    entered: Set<u64>,
    budget: nat,
) -> Seq<u64>
    decreases budget, todo.len(),
{
    if todo.len() == 0 {
        Seq::empty()
    } else {
        let t = todo[0];
        let rest = todo.skip(1);
        if panes.contains_key(t) {
            seq![t] + met(panes, containers, rest, entered, budget)
        } else if containers.contains_key(t) && !entered.contains(t) && budget > 0 {
            met(
                panes,
                containers,
                containers[t] + rest,
                entered.insert(t),
                (budget - 1) as nat,
            )
        } else {
            met(panes, containers, rest, entered, budget)
        }
    }
}

/// The containers entered on that walk.
pub open spec fn entered_by(
    panes: Map<u64, u64>,
    containers: Map<u64, Seq<u64>>,
    todo: Seq<u64>,
    entered: Set<u64>,
    budget: nat,
) -> Set<u64>
    decreases budget, todo.len(),
{
    if todo.len() == 0 {
        entered
    } else {
        let t = todo[0];
        let rest = todo.skip(1);
        if containers.contains_key(t) && !panes.contains_key(t) && !entered.contains(t) && budget
            > 0 {
            entered_by(
                panes,
                containers,
                containers[t] + rest,
                entered.insert(t),
                (budget - 1) as nat,
            )
        } else {
            entered_by(panes, containers, rest, entered, budget)
        }
    }
}

/// Where the walk through a tree starts: at the tile at the top.
pub open spec fn top(tree: egui_tiles::Tree<u64>) -> Seq<u64> {
    match tree_root(tree) {
        Some(root) => seq![root],
        None => Seq::empty(),
    }
}

/// The pane tiles a tree shows, from left to right and from top to bottom: those
/// met on a walk from the tile at the top.
pub open spec fn shown_tiles(tree: egui_tiles::Tree<u64>) -> Seq<u64> {
    met(
        tree_panes(tree),
        tree_containers(tree),
        top(tree),
        Set::empty(),
        tree_containers(tree).len(),
    )
}

/// The containers that are below the tile at the top, and that tile.
pub open spec fn shown_containers(tree: egui_tiles::Tree<u64>) -> Set<u64> {
    entered_by(
        tree_panes(tree),
        tree_containers(tree),
        top(tree),
        Set::empty(),
        tree_containers(tree).len(),
    )
}

/// The panes of a list of pane tiles.
pub open spec fn panes_of(panes: Map<u64, u64>, tiles: Seq<u64>) -> Seq<PaneId> {
    tiles.map_values(|t: u64| PaneId { id: panes[t] })
}

/// The panes a tree shows, from left to right and from top to bottom.
pub open spec fn listed(tree: egui_tiles::Tree<u64>) -> Seq<PaneId> {
    panes_of(tree_panes(tree), shown_tiles(tree))
}

/// No tile hangs in two places: there are finitely many containers, none of them
/// lists a tile that another lists or that it lists already, and none lists the
/// tile at the top.
pub open spec fn linked_once(tree: egui_tiles::Tree<u64>) -> bool {
    let cs = tree_containers(tree);
    &&& cs.dom().finite()
    &&& forall|c: u64| #[trigger] cs.contains_key(c) ==> cs[c].no_duplicates()
    &&& forall|c: u64, d: u64, x: u64|
        cs.contains_key(c) && cs.contains_key(d) && c != d && #[trigger] cs[c].contains(x)
            ==> !#[trigger] cs[d].contains(x)
    &&& forall|c: u64, x: u64|
        cs.contains_key(c) && #[trigger] cs[c].contains(x) ==> tree_root(tree) != Some(x)
}

/// Every pane is shown, and by one tile.
pub open spec fn each_shown_once(tree: egui_tiles::Tree<u64>) -> bool {
    &&& forall|t: u64| #[trigger]
        tree_panes(tree).contains_key(t) ==> shown_tiles(tree).contains(t)
    &&& forall|s: u64, t: u64, p: u64|
        #[trigger] tile_shows(tree, s, p) && #[trigger] tile_shows(tree, t, p) ==> s == t
}

/// The tree shows the panes of the list in the order of the list, each in one
/// tile that hangs in one place, and stores no other pane.
pub open spec fn agrees(tree: egui_tiles::Tree<u64>, panes: Seq<PaneId>) -> bool {
    &&& listed(tree) == panes
    &&& linked_once(tree)
    &&& each_shown_once(tree)
}

/// Whether something is stored under a number.
pub open spec fn stored(tree: egui_tiles::Tree<u64>, x: u64) -> bool {
    tree_panes(tree).contains_key(x) || tree_containers(tree).contains_key(x)
}

/// Nothing is left to collapse below the tile at the top: no child is missing,
/// and every container but that tile has at least two children.
pub open spec fn collapsed(tree: egui_tiles::Tree<u64>) -> bool {
    forall|c: u64| #[trigger]
        shown_containers(tree).contains(c) ==> {
            &&& tree_root(tree) != Some(c) ==> tree_containers(tree)[c].len() >= 2
            &&& forall|i: int|
                0 <= i < tree_containers(tree)[c].len() ==> stored(
                    tree,
                    #[trigger] tree_containers(tree)[c][i],
                )
        }
}

/// The tree is a grid with a tile for each of the panes, in their order: the
/// tiles `ids`, in one container.
pub open spec fn grid_of(
    tree: egui_tiles::Tree<u64>,
    panes: Seq<u64>,
    ids: Seq<u64>,
    root: u64,
) -> bool {
    &&& ids.len() == panes.len()
    &&& ids.no_duplicates()
    &&& !ids.contains(root)
    &&& tree_root(tree) == Some(root)
    &&& tree_containers(tree) == map![root => ids]
    &&& tree_lines(tree) == Map::<u64, bool>::empty()
    &&& forall|t: u64| #[trigger] tree_panes(tree).contains_key(t) <==> ids.contains(t)
    &&& forall|i: int| 0 <= i < ids.len() ==> tree_panes(tree)[#[trigger] ids[i]] == panes[i]
}

/// `egui_tiles::Tree::new_grid`: a container at the top that lays its children
/// out as a grid, and in it a tile for each pane, in their order.
#[verifier::external_body]
pub(crate) fn new_grid(panes: Vec<u64>) -> (r: egui_tiles::Tree<u64>)
    ensures
        exists|ids: Seq<u64>, root: u64| #[trigger] grid_of(r, panes@, ids, root),
{
    egui_tiles::Tree::new_grid("c0pl4nd_grid", panes)
}

/// `egui_tiles::Tiles::find_pane`: a pane tile that shows the pane, and `None`
/// exactly where no tile does. Which one it is where there are several is left
/// unsaid.
#[verifier::external_body]
pub(crate) fn tile_of_pane(tree: &egui_tiles::Tree<u64>, pane: u64) -> (r: Option<u64>)
    ensures
        match r {
            Some(t) => tile_shows(*tree, t, pane) && !tree_containers(*tree).contains_key(t),
            None => !shows(*tree, pane),
        },
{
    tree.tiles.find_pane(&pane).map(|t| t.0)
}

/// `egui_tiles::Tree::root`: the tile at the top.
#[verifier::external_body]
pub(crate) fn root_tile(tree: &egui_tiles::Tree<u64>) -> (r: Option<u64>)
    ensures
        r == tree_root(*tree),
{
    tree.root().map(|t| t.0)
}

/// `egui_tiles::Tiles::get_pane`: the pane of a pane tile.
#[verifier::external_body]
pub(crate) fn pane_at(tree: &egui_tiles::Tree<u64>, tile: u64) -> (r: Option<u64>)
    ensures
        r == (if tree_panes(*tree).contains_key(tile) {
            Some(tree_panes(*tree)[tile])
        } else {
            None
        }),
{
    tree.tiles.get_pane(&egui_tiles::TileId::from_u64(tile)).copied()
}

/// `egui_tiles::Container::children_vec` of the container under a number, if
/// there is one: its children, in their order.
#[verifier::external_body]
pub(crate) fn children_at(tree: &egui_tiles::Tree<u64>, tile: u64) -> (r: Option<Vec<u64>>)
    ensures
        match r {
            Some(children) => tree_containers(*tree).contains_key(tile) && children@
                == tree_containers(*tree)[tile],
            None => !tree_containers(*tree).contains_key(tile),
        },
{
    let container = tree.tiles.get_container(egui_tiles::TileId::from_u64(tile));
    container.map(|c| c.children_vec().into_iter().map(|t| t.0).collect())
}

/// `egui_tiles::Tiles::parent_of`: a container that lists the tile, and `None`
/// exactly where none does. Which one it is where several do is left unsaid.
#[verifier::external_body]
pub(crate) fn parent_of(tree: &egui_tiles::Tree<u64>, tile: u64) -> (r: Option<u64>)
    ensures
        match r {
            Some(c) => tree_containers(*tree).contains_key(c) && tree_containers(
                *tree,
            )[c].contains(tile),
            None => forall|c: u64| #[trigger]
                tree_containers(*tree).contains_key(c) ==> !tree_containers(*tree)[c].contains(
                    tile,
                ),
        },
{
    tree.tiles.parent_of(egui_tiles::TileId::from_u64(tile)).map(|t| t.0)
}

/// The tree stores `n` tiles: finitely many pane tiles, and finitely many
/// containers.
pub open spec fn holds_tiles(tree: egui_tiles::Tree<u64>, n: usize) -> bool {
    &&& tree_panes(tree).dom().finite()
    &&& tree_containers(tree).dom().finite()
    &&& n == tree_panes(tree).len() + tree_containers(tree).len()
}

/// `egui_tiles::Tiles::len`: how many tiles are stored, which are the pane tiles
/// and the containers, and no number is one of each.
#[verifier::external_body]
pub(crate) fn tile_count(tree: &egui_tiles::Tree<u64>) -> (r: usize)
    ensures
        holds_tiles(*tree, r),
{
    tree.tiles.len()
}

/// `egui_tiles::Tiles::remove`: takes one tile out of the storage and touches no
/// other; a container that lists it still does, and the tile at the top is still
/// named as such.
#[verifier::external_body]
pub(crate) fn remove_tile(tree: &mut egui_tiles::Tree<u64>, tile: u64)
    ensures
        tree_panes(*final(tree)) == tree_panes(*old(tree)).remove(tile),
        tree_containers(*final(tree)) == tree_containers(*old(tree)).remove(tile),
        tree_lines(*final(tree)) == tree_lines(*old(tree)).remove(tile),
        tree_root(*final(tree)) == tree_root(*old(tree)),
{
    tree.tiles.remove(egui_tiles::TileId::from_u64(tile));
}

/// `egui_tiles::Tiles::insert` of a pane tile: it stands under its number in
/// place of what was there, and no other tile is touched.
#[verifier::external_body]
pub(crate) fn insert_pane(tree: &mut egui_tiles::Tree<u64>, tile: u64, pane: u64)
    ensures
        tree_panes(*final(tree)) == tree_panes(*old(tree)).insert(tile, pane),
        tree_containers(*final(tree)) == tree_containers(*old(tree)).remove(tile),
        tree_lines(*final(tree)) == tree_lines(*old(tree)).remove(tile),
        tree_root(*final(tree)) == tree_root(*old(tree)),
{
    tree.tiles.insert(egui_tiles::TileId::from_u64(tile), egui_tiles::Tile::Pane(pane));
}

/// `egui_tiles::Tiles::insert` of a `Container::new_linear` with two children:
/// it stands under its number in place of what was there, and no other tile is
/// touched.
#[verifier::external_body]
pub(crate) fn insert_pair(
    tree: &mut egui_tiles::Tree<u64>,
    tile: u64,
    dir: SplitDir,
    first: u64,
    second: u64,
)
    ensures
        tree_panes(*final(tree)) == tree_panes(*old(tree)).remove(tile),
        tree_containers(*final(tree)) == tree_containers(*old(tree)).insert(
            tile,
            seq![first, second],
        ),
        tree_lines(*final(tree)) == tree_lines(*old(tree)).insert(tile, dir is Horizontal),
        tree_root(*final(tree)) == tree_root(*old(tree)),
{
    let dir = match dir {
        SplitDir::Horizontal => egui_tiles::LinearDir::Horizontal,
        SplitDir::Vertical => egui_tiles::LinearDir::Vertical,
    };
    let children = vec![
        egui_tiles::TileId::from_u64(first),
        egui_tiles::TileId::from_u64(second),
    ];
    let pair = egui_tiles::Container::new_linear(dir, children);
    tree.tiles.insert(egui_tiles::TileId::from_u64(tile), egui_tiles::Tile::Container(pair));
}

/// `egui_tiles::Tree::simplify_children_of_tile` with the default options:
/// collapses containers below `tile`. Every pane tile stays, but for `tile`
/// itself where it is a pane tile: that one is taken out and not put back. Where
/// `tile` is at the top and no tile hangs in two places, the tree shows the same
/// tiles in the same order, none hangs in two places, and nothing is left to
/// collapse. Which of the containers are left, and how they lay their children
/// out, is left unsaid.
#[verifier::external_body]
pub(crate) fn simplify_below(tree: &mut egui_tiles::Tree<u64>, tile: u64)
    ensures
        tree_panes(*final(tree)) == tree_panes(*old(tree)).remove(tile),
        tree_root(*final(tree)) == tree_root(*old(tree)),
        tree_root(*old(tree)) == Some(tile) && !tree_panes(*old(tree)).contains_key(tile)
            && linked_once(*old(tree)) ==> shown_tiles(*final(tree)) == shown_tiles(*old(tree))
            && linked_once(*final(tree)) && collapsed(*final(tree)),
{
    tree.simplify_children_of_tile(
        egui_tiles::TileId::from_u64(tile),
        &egui_tiles::SimplificationOptions::default(),
    );
}

/// The list without a number.
pub open spec fn sans(s: Seq<u64>, x: u64) -> Seq<u64>
    decreases s.len(),
{
    if s.len() == 0 {
        s
    } else if s.last() == x {
        sans(s.drop_last(), x)
    } else {
        sans(s.drop_last(), x).push(s.last())
    }
}

/// What is left starts with the first number, unless that is the one left out.
proof fn lemma_sans_first(s: Seq<u64>, x: u64)
    requires
        s.len() > 0,
    ensures
        sans(s, x) == (if s[0] == x {
            sans(s.skip(1), x)
        } else {
            seq![s[0]] + sans(s.skip(1), x)
        }),
    decreases s.len(),
{
    if s.len() == 1 {
        assert(s.drop_last() =~= Seq::empty());
        assert(s.skip(1) =~= Seq::empty());
        assert(sans(s, x) =~= (if s[0] == x {
            sans(s.skip(1), x)
        } else {
            seq![s[0]] + sans(s.skip(1), x)
        }));
    } else {
        lemma_sans_first(s.drop_last(), x);
        assert(s.drop_last().skip(1) =~= s.skip(1).drop_last());
        assert(s.skip(1).last() == s.last());
        assert(sans(s, x) =~= (if s[0] == x {
            sans(s.skip(1), x)
        } else {
            seq![s[0]] + sans(s.skip(1), x)
        }));
    }
}

/// What is left holds the other numbers and no more.
proof fn lemma_sans_holds(s: Seq<u64>, x: u64)
    ensures
        forall|y: u64| #[trigger] sans(s, x).contains(y) <==> s.contains(y) && y != x,
    decreases s.len(),
{
    if s.len() > 0 {
        let rest = s.drop_last();
        lemma_sans_holds(rest, x);
        assert(s =~= rest.push(s.last()));
        assert forall|y: u64| #[trigger] sans(s, x).contains(y) <==> s.contains(y) && y != x by {
            lemma_push_contains(rest, s.last(), y);
            lemma_push_contains(sans(rest, x), s.last(), y);
        }
    }
}

proof fn lemma_push_contains(s: Seq<u64>, last: u64, y: u64)
    ensures
        s.push(last).contains(y) <==> s.contains(y) || y == last,
{
    let all = s.push(last);
    if s.contains(y) {
        let i = s.index_of(y);
        assert(all[i] == y);
    }
    assert(all[s.len() as int] == last);
    if all.contains(y) {
        let i = all.index_of(y);
        if i < s.len() {
            assert(s[i] == y);
        }
    }
}

/// A walk without one of the pane tiles meets the others as before.
proof fn lemma_met_sans(
    panes: Map<u64, u64>,
    containers: Map<u64, Seq<u64>>,
    todo: Seq<u64>,
    entered: Set<u64>,
    budget: nat,
    t: u64,
)
    requires
        !containers.contains_key(t),
    ensures
        met(panes.remove(t), containers, todo, entered, budget) == sans(
            met(panes, containers, todo, entered, budget),
            t,
        ),
    decreases budget, todo.len(),
{
    if todo.len() > 0 {
        let x = todo[0];
        let rest = todo.skip(1);
        if panes.contains_key(x) {
            lemma_met_sans(panes, containers, rest, entered, budget, t);
            let after = met(panes, containers, rest, entered, budget);
            lemma_sans_first(seq![x] + after, t);
            assert((seq![x] + after).skip(1) =~= after);
        } else if containers.contains_key(x) && !entered.contains(x) && budget > 0 {
            lemma_met_sans(
                panes,
                containers,
                containers[x] + rest,
                entered.insert(x),
                (budget - 1) as nat,
                t,
            );
        } else {
            lemma_met_sans(panes, containers, rest, entered, budget, t);
        }
    }
}

/// The panes of the tiles that are left are the panes that are left.
proof fn lemma_panes_sans(panes: Map<u64, u64>, tiles: Seq<u64>, t: u64, pane: PaneId)
    requires
        forall|i: int|
            0 <= i < tiles.len() ==> (panes[#[trigger] tiles[i]] == pane.id <==> tiles[i] == t),
    ensures
        panes_of(panes.remove(t), sans(tiles, t)) == grid::without(panes_of(panes, tiles), pane),
    decreases tiles.len(),
{
    let all = panes_of(panes, tiles);
    if tiles.len() > 0 {
        let rest = tiles.drop_last();
        assert forall|i: int| 0 <= i < rest.len() implies (panes[#[trigger] rest[i]] == pane.id
            <==> rest[i] == t) by {
            assert(rest[i] == tiles[i]);
        }
        lemma_panes_sans(panes, rest, t, pane);
        assert(all.drop_last() =~= panes_of(panes, rest));
        assert(tiles[tiles.len() - 1] == tiles.last());
        assert(panes_of(panes.remove(t), sans(tiles, t)) =~= grid::without(all, pane));
    } else {
        assert(panes_of(panes.remove(t), sans(tiles, t)) =~= all);
    }
}

/// Every number of the list is that of a pane tile.
spec fn pane_tiles(panes: Map<u64, u64>, tiles: Seq<u64>) -> bool {
    forall|i: int| 0 <= i < tiles.len() ==> panes.contains_key(#[trigger] tiles[i])
}

/// Every tile that is met is a pane tile.
proof fn lemma_met_are_panes(
    panes: Map<u64, u64>,
    containers: Map<u64, Seq<u64>>,
    todo: Seq<u64>,
    entered: Set<u64>,
    budget: nat,
)
    ensures
        pane_tiles(panes, met(panes, containers, todo, entered, budget)),
    decreases budget, todo.len(),
{
    if todo.len() > 0 {
        let x = todo[0];
        let rest = todo.skip(1);
        if panes.contains_key(x) {
            lemma_met_are_panes(panes, containers, rest, entered, budget);
        } else if containers.contains_key(x) && !entered.contains(x) && budget > 0 {
            lemma_met_are_panes(
                panes,
                containers,
                containers[x] + rest,
                entered.insert(x),
                (budget - 1) as nat,
            );
        } else {
            lemma_met_are_panes(panes, containers, rest, entered, budget);
        }
    }
}

/// The tree after the tile `t` was closed: its own tile gone, and the tile at
/// the top too where that one was a pane tile. Where no tile hung in two places
/// and the tile at the top was no other pane tile, the tree shows what it showed
/// but for `t`, and is collapsed.
pub open spec fn closed_tile(
    before: egui_tiles::Tree<u64>,
    after: egui_tiles::Tree<u64>,
    t: u64,
) -> bool {
    &&& tree_root(after) == tree_root(before)
    &&& tree_panes(after) == tree_panes(before).remove(t).remove(
        match tree_root(before) {
            Some(root) => root,
            None => t,
        },
    )
    &&& linked_once(before) && (tree_root(before) matches Some(root) && (root == t || !tree_panes(
        before,
    ).contains_key(root))) ==> {
        &&& shown_tiles(after) == sans(shown_tiles(before), t)
        &&& linked_once(after)
        &&& collapsed(after)
    }
}

/// Take the pane out of the tree and collapse what is left. Tells whether the
/// pane was there; a tree without it is left alone.
pub fn close_in_tree(tree: &mut egui_tiles::Tree<u64>, pane: PaneId) -> (r: bool)
    ensures
        r == shows(*old(tree), pane.id),
        !r ==> *final(tree) == *old(tree),
        r ==> exists|t: u64| #[trigger]
            tile_shows(*old(tree), t, pane.id) && closed_tile(*old(tree), *final(tree), t),
{
    match tile_of_pane(tree, pane.id) {
        Some(tile) => {
            remove_tile(tree, tile);
            let ghost mid = *tree;
            proof {
                let before = *old(tree);
                let cs = tree_containers(before);
                assert(cs.remove(tile) =~= cs);
                lemma_met_sans(
                    tree_panes(before),
                    cs,
                    top(before),
                    Set::empty(),
                    cs.len(),
                    tile,
                );
            }
            let top: u64 = match root_tile(tree) {
                Some(root) => root,
                None => tile,
            };
            simplify_below(tree, top);
            assert(linked_once(*old(tree)) ==> linked_once(mid));
            assert(tile_shows(*old(tree), tile, pane.id) && closed_tile(
                *old(tree),
                *tree,
                tile,
            ));
            true
        },
        None => false,
    }
}

/// A tree with a pane tile at the top shows that tile alone.
proof fn lemma_pane_at_top(tree: egui_tiles::Tree<u64>, root: u64)
    requires
        tree_root(tree) == Some(root),
        tree_panes(tree).contains_key(root),
    ensures
        shown_tiles(tree) == seq![root],
{
    let rest = seq![root].skip(1);
    assert(rest =~= Seq::<u64>::empty());
    assert(met(
        tree_panes(tree),
        tree_containers(tree),
        rest,
        Set::empty(),
        tree_containers(tree).len(),
    ) =~= Seq::<u64>::empty());
    assert(shown_tiles(tree) =~= seq![root]);
}

/// Closing a pane of a tree that agrees with a list leaves a tree that agrees
/// with the list without that pane: the others are shown as before, in the same
/// order, and none is lost.
pub proof fn closing_loses_no_other_pane(
    before: egui_tiles::Tree<u64>,
    after: egui_tiles::Tree<u64>,
    panes: Seq<PaneId>,
    pane: PaneId,
    t: u64,
)
    requires
        agrees(before, panes),
        tile_shows(before, t, pane.id),
        closed_tile(before, after, t),
    ensures
        agrees(after, grid::without(panes, pane)),
        collapsed(after),
{
    let tiles = shown_tiles(before);
    let kept = tree_panes(before);
    assert(tiles.contains(t));
    assert(tree_root(before) is Some) by {
        if tree_root(before) is None {
            assert(tiles =~= Seq::<u64>::empty());
        }
    }
    let root = tree_root(before)->0;
    if kept.contains_key(root) {
        lemma_pane_at_top(before, root);
        assert(t == root);
    }
    assert(kept.remove(t).remove(root) =~= kept.remove(t));
    lemma_met_are_panes(
        kept,
        tree_containers(before),
        top(before),
        Set::empty(),
        tree_containers(before).len(),
    );
    assert forall|i: int| 0 <= i < tiles.len() implies (kept[#[trigger] tiles[i]] == pane.id
        <==> tiles[i] == t) by {
        if kept[tiles[i]] == pane.id {
            assert(tile_shows(before, tiles[i], pane.id));
        }
    }
    lemma_panes_sans(kept, tiles, t, pane);
    lemma_sans_holds(tiles, t);
    assert forall|s: u64, u: u64, p: u64|
        #[trigger] tile_shows(after, s, p) && #[trigger] tile_shows(after, u, p) implies s
        == u by {
        assert(tile_shows(before, s, p) && tile_shows(before, u, p));
    }
    assert forall|s: u64| #[trigger] tree_panes(after).contains_key(s) implies shown_tiles(
        after,
    ).contains(s) by {
        assert(kept.contains_key(s));
    }
}

/// Whether a list of numbers holds one.
fn holds(list: &Vec<u64>, x: u64) -> (r: bool)
    ensures
        r == list@.contains(x),
{
    let mut i: usize = 0;
    while i < list.len()
        invariant
            i <= list.len(),
            forall|j: int| 0 <= j < i ==> list@[j] != x,
        decreases list.len() - i,
    {
        if list[i] == x {
            assert(list@[i as int] == x);
            return true;
        }
        i += 1;
    }
    false
}

/// The panes a tree shows, from left to right and from top to bottom.
pub fn panes_in_visual_order(tree: &egui_tiles::Tree<u64>) -> (r: Vec<PaneId>)
    ensures
        r@ == listed(*tree),
{
    let ghost panes = tree_panes(*tree);
    let ghost containers = tree_containers(*tree);
    let mut budget: usize = tile_count(tree);
    let mut todo: Vec<u64> = Vec::new();
    if let Some(root) = root_tile(tree) {
        todo.push(root);
    }
    let mut entered: Vec<u64> = Vec::new();
    let mut out: Vec<PaneId> = Vec::new();
    let ghost mut seen: Set<u64> = Set::empty();
    assert(todo@ =~= top(*tree));
    assert(containers.dom().difference(seen) =~= containers.dom());
    while todo.len() > 0
        invariant
            panes == tree_panes(*tree),
            containers == tree_containers(*tree),
            containers.dom().finite(),
            forall|x: u64| #[trigger] entered@.contains(x) <==> seen.contains(x),
            budget >= containers.dom().difference(seen).len(),
            out@ + panes_of(
                panes,
                met(panes, containers, todo@, seen, containers.dom().difference(seen).len()),
            ) == listed(*tree),
        decreases budget, todo.len(),
    {
        let ghost left = containers.dom().difference(seen).len();
        let ghost before = todo@;
        let t = todo.remove(0);
        assert(todo@ =~= before.skip(1));
        if let Some(pane) = pane_at(tree, t) {
            let ghost after = met(panes, containers, todo@, seen, left);
            let ghost so_far = out@;
            out.push(PaneId { id: pane });
            assert(so_far + panes_of(panes, seq![t] + after) =~= out@ + panes_of(panes, after));
        } else if let Some(children) = children_at(tree, t) {
            if !holds(&entered, t) {
                proof {
                    let open = containers.dom().difference(seen);
                    assert(open.contains(t));
                    assert(open.remove(t) =~= containers.dom().difference(seen.insert(t)));
                    lemma_push_contains(entered@, t, t);
                    assert forall|x: u64| #[trigger]
                        entered@.push(t).contains(x) <==> seen.insert(t).contains(x) by {
                        lemma_push_contains(entered@, t, x);
                    }
                    seen = seen.insert(t);
                }
                entered.push(t);
                budget = budget - 1;
                let mut next = children;
                next.append(&mut todo);
                todo = next;
            }
        }
    }
    assert(panes_of(panes, Seq::empty()) =~= Seq::<PaneId>::empty());
    out
}

/// A walk through pane tiles alone meets them as they come.
proof fn lemma_panes_are_met(
    panes: Map<u64, u64>,
    containers: Map<u64, Seq<u64>>,
    todo: Seq<u64>,
    entered: Set<u64>,
    budget: nat,
)
    requires
        pane_tiles(panes, todo),
    ensures
        met(panes, containers, todo, entered, budget) == todo,
    decreases todo.len(),
{
    if todo.len() > 0 {
        let rest = todo.skip(1);
        assert forall|i: int| 0 <= i < rest.len() implies panes.contains_key(
            #[trigger] rest[i],
        ) by {
            assert(rest[i] == todo[i + 1]);
        }
        lemma_panes_are_met(panes, containers, rest, entered, budget);
        assert(panes.contains_key(todo[0]));
        assert(seq![todo[0]] + rest =~= todo);
    } else {
        assert(todo =~= Seq::<u64>::empty());
    }
}

/// A grid shows its panes, in their order.
pub proof fn a_grid_shows_its_panes(
    tree: egui_tiles::Tree<u64>,
    panes: Seq<PaneId>,
    ids: Seq<u64>,
    root: u64,
)
    requires
        grid_of(tree, grid::numbers(panes), ids, root),
        panes.no_duplicates(),
    ensures
        agrees(tree, panes),
{
    let ps = tree_panes(tree);
    let cs = tree_containers(tree);
    assert(cs.dom() =~= set![root]);
    assert(cs.len() == 1);
    assert(cs[root] == ids);
    assert(seq![root].skip(1) =~= Seq::<u64>::empty());
    assert(ids + Seq::<u64>::empty() =~= ids);
    assert(!ps.contains_key(root));
    assert forall|i: int| 0 <= i < ids.len() implies ps.contains_key(#[trigger] ids[i]) by {
        assert(ids.contains(ids[i]));
    }
    lemma_panes_are_met(ps, cs, ids, Set::empty().insert(root), 0);
    assert(shown_tiles(tree) == ids);
    assert forall|i: int| 0 <= i < ids.len() implies #[trigger] listed(tree)[i] == panes[i] by {
        assert(ps[ids[i]] == grid::numbers(panes)[i]);
    }
    assert(listed(tree) =~= panes);
    assert forall|s: u64, t: u64, p: u64|
        #[trigger] tile_shows(tree, s, p) && #[trigger] tile_shows(tree, t, p) implies s
        == t by {
        let i = ids.index_of(s);
        let j = ids.index_of(t);
        assert(ids[i] == s && ids[j] == t);
        assert(ps[ids[i]] == grid::numbers(panes)[i]);
        assert(ps[ids[j]] == grid::numbers(panes)[j]);
        assert(panes[i] == panes[j]);
    }
}

/// A tree that lays the panes out as a uniform grid, in their order.
pub fn uniform_grid(panes: &Vec<PaneId>) -> (r: egui_tiles::Tree<u64>)
    ensures
        exists|ids: Seq<u64>, root: u64| #[trigger]
            grid_of(r, grid::numbers(panes@), ids, root),
{
    let mut list: Vec<u64> = Vec::new();
    let mut i: usize = 0;
    while i < panes.len()
        invariant
            i <= panes.len(),
            list@ == grid::numbers(panes@).take(i as int),
        decreases panes.len() - i,
    {
        list.push(panes[i].id);
        i += 1;
        assert(list@ =~= grid::numbers(panes@).take(i as int));
    }
    assert(list@ =~= grid::numbers(panes@));
    new_grid(list)
}

/// A number under which nothing is stored and that nothing refers to.
pub open spec fn free(tree: egui_tiles::Tree<u64>, x: u64) -> bool {
    &&& !stored(tree, x)
    &&& tree_root(tree) != Some(x)
    &&& forall|c: u64| #[trigger]
        tree_containers(tree).contains_key(c) ==> !tree_containers(tree)[c].contains(x)
}

/// Two numbers that are free.
pub open spec fn both_free(tree: egui_tiles::Tree<u64>, a: u64, b: u64) -> bool {
    a != b && free(tree, a) && free(tree, b)
}

/// The tree has numbers left for two more tiles.
pub open spec fn has_numbers(tree: egui_tiles::Tree<u64>) -> bool {
    exists|a: u64, b: u64| #[trigger] both_free(tree, a, b)
}

/// A free number other than `but`.
fn find_free(tree: &egui_tiles::Tree<u64>, but: Option<u64>) -> (r: Option<u64>)
    ensures
        match r {
            Some(x) => free(*tree, x) && but != Some(x),
            None => forall|x: u64| #[trigger] free(*tree, x) ==> but == Some(x),
        },
{
    let root = root_tile(tree);
    let mut i: u64 = 0;
    loop
        invariant
            root == tree_root(*tree),
            forall|x: u64| x < i && #[trigger] free(*tree, x) ==> but == Some(x),
        decreases u64::MAX - i,
    {
        let other = match but {
            Some(b) => b != i,
            None => true,
        };
        let low = match root {
            Some(r) => r != i,
            None => true,
        };
        if other && low && pane_at(tree, i).is_none() && children_at(tree, i).is_none()
            && parent_of(tree, i).is_none() {
            return Some(i);
        }
        if i == u64::MAX {
            return None;
        }
        i += 1;
    }
}

/// The tree after the tile `t` of `pane` was split: two new tiles, `a` for the
/// pane and `b` for the new one behind it, in a line that takes the place of the
/// old tile.
pub open spec fn split_tile(
    before: egui_tiles::Tree<u64>,
    after: egui_tiles::Tree<u64>,
    pane: PaneId,
    new: PaneId,
    dir: SplitDir,
    t: u64,
    a: u64,
    b: u64,
) -> bool {
    &&& tile_shows(before, t, pane.id)
    &&& !tree_containers(before).contains_key(t)
    &&& both_free(before, a, b)
    &&& tree_panes(after) == tree_panes(before).insert(a, pane.id).insert(b, new.id).remove(t)
    &&& tree_containers(after) == tree_containers(before).insert(t, seq![a, b])
    &&& tree_lines(after) == tree_lines(before).remove(a).remove(b).insert(t, dir is Horizontal)
    &&& tree_root(after) == tree_root(before)
}

/// The tree after the tile of `pane` was split.
pub open spec fn splits_tile(
    before: egui_tiles::Tree<u64>,
    after: egui_tiles::Tree<u64>,
    pane: PaneId,
    new: PaneId,
    dir: SplitDir,
) -> bool {
    exists|t: u64, a: u64, b: u64| #[trigger] split_tile(before, after, pane, new, dir, t, a, b)
}

/// Put a new pane behind the focused one, in its place. Tells whether that was
/// possible: the focused pane is in the tree, and there are numbers left for two
/// more tiles. The tree is left alone where it was not.
pub fn split_focused(
    tree: &mut egui_tiles::Tree<u64>,
    focused: PaneId,
    new: PaneId,
    dir: SplitDir,
) -> (r: bool)
    ensures
        r == (shows(*old(tree), focused.id) && has_numbers(*old(tree))),
        !r ==> *final(tree) == *old(tree),
        r ==> splits_tile(*old(tree), *final(tree), focused, new, dir),
{
    let tile = match tile_of_pane(tree, focused.id) {
        Some(tile) => tile,
        None => {
            return false;
        },
    };
    let first = match find_free(tree, None) {
        Some(x) => x,
        None => {
            return false;
        },
    };
    let second = match find_free(tree, Some(first)) {
        Some(x) => x,
        None => {
            return false;
        },
    };
    assert(both_free(*tree, first, second));
    insert_pane(tree, first, focused.id);
    insert_pane(tree, second, new.id);
    insert_pair(tree, tile, dir, first, second);
    proof {
        let cs = tree_containers(*old(tree));
        assert(cs.remove(first).remove(second) =~= cs);
        assert(split_tile(*old(tree), *tree, focused, new, dir, tile, first, second));
    }
    true
}

/// Nothing is met twice from here on: the list holds no number twice, and no
/// container that is still to be entered lists a number that stands in the list
/// or that another lists.
spec fn once(containers: Map<u64, Seq<u64>>, todo: Seq<u64>, entered: Set<u64>) -> bool {
    &&& todo.no_duplicates()
    &&& forall|c: u64| #[trigger]
        containers.contains_key(c) && !entered.contains(c) ==> containers[c].no_duplicates()
    &&& forall|c: u64, x: u64|
        containers.contains_key(c) && !entered.contains(c) && #[trigger] containers[c].contains(x)
            ==> !todo.contains(x)
    &&& forall|c: u64, d: u64, x: u64|
        containers.contains_key(c) && containers.contains_key(d) && !entered.contains(c)
            && !entered.contains(d) && c != d && #[trigger] containers[c].contains(x)
            ==> !#[trigger] containers[d].contains(x)
}

/// A number that is not met any more.
spec fn past(
    containers: Map<u64, Seq<u64>>,
    todo: Seq<u64>,
    entered: Set<u64>,
    x: u64,
) -> bool {
    &&& !todo.contains(x)
    &&& forall|c: u64| #[trigger]
        containers.contains_key(c) && !entered.contains(c) ==> !containers[c].contains(x)
}

/// What stands behind the first number of a list.
proof fn lemma_rest(todo: Seq<u64>)
    requires
        todo.len() > 0,
    ensures
        forall|x: u64| #[trigger] todo.skip(1).contains(x) ==> todo.contains(x),
        forall|x: u64| #[trigger] todo.contains(x) ==> x == todo[0] || todo.skip(1).contains(x),
        todo.no_duplicates() ==> todo.skip(1).no_duplicates() && !todo.skip(1).contains(todo[0]),
{
    let rest = todo.skip(1);
    assert forall|x: u64| #[trigger] rest.contains(x) implies todo.contains(x) by {
        let i = rest.index_of(x);
        assert(todo[i + 1] == x);
    }
    assert forall|x: u64| #[trigger] todo.contains(x) implies x == todo[0] || rest.contains(x) by {
        let i = todo.index_of(x);
        if i > 0 {
            assert(rest[i - 1] == x);
        }
    }
    if todo.no_duplicates() && rest.contains(todo[0]) {
        let i = rest.index_of(todo[0]);
        assert(todo[i + 1] == todo[0]);
    }
}

/// What two lists hold together.
proof fn lemma_both(s: Seq<u64>, r: Seq<u64>)
    ensures
        forall|x: u64| #[trigger] (s + r).contains(x) <==> s.contains(x) || r.contains(x),
{
    let all = s + r;
    assert forall|x: u64| #[trigger] all.contains(x) <==> s.contains(x) || r.contains(x) by {
        if s.contains(x) {
            let i = s.index_of(x);
            assert(all[i] == x);
        }
        if r.contains(x) {
            let i = r.index_of(x);
            assert(all[s.len() + i] == x);
        }
        if all.contains(x) {
            let i = all.index_of(x);
            if i < s.len() {
                assert(s[i] == x);
            } else {
                assert(r[i - s.len()] == x);
            }
        }
    }
}

/// The walk stays one that meets nothing twice.
proof fn lemma_once_steps(
    containers: Map<u64, Seq<u64>>,
    todo: Seq<u64>,
    entered: Set<u64>,
)
    requires
        once(containers, todo, entered),
        todo.len() > 0,
    ensures
        once(containers, todo.skip(1), entered),
        past(containers, todo.skip(1), entered, todo[0]),
        containers.contains_key(todo[0]) && !entered.contains(todo[0]) ==> once(
            containers,
            containers[todo[0]] + todo.skip(1),
            entered.insert(todo[0]),
        ),
{
    let t = todo[0];
    let rest = todo.skip(1);
    lemma_rest(todo);
    assert(todo.contains(t));
    if containers.contains_key(t) && !entered.contains(t) {
        let next = containers[t] + rest;
        lemma_both(containers[t], rest);
        assert forall|i: int, j: int|
            0 <= i < next.len() && 0 <= j < next.len() && i != j implies next[i] != next[j] by {
            let n = containers[t].len();
            if i < n {
                assert(containers[t].contains(containers[t][i]));
            } else {
                assert(rest.contains(rest[i - n]));
            }
            if j < n {
                assert(containers[t].contains(containers[t][j]));
            } else {
                assert(rest.contains(rest[j - n]));
            }
        }
    }
}

/// A tree whose tiles hang in one place each starts such a walk.
proof fn lemma_once_starts(tree: egui_tiles::Tree<u64>)
    requires
        linked_once(tree),
    ensures
        once(tree_containers(tree), top(tree), Set::empty()),
{
    let todo = top(tree);
    assert forall|c: u64, x: u64|
        tree_containers(tree).contains_key(c) && #[trigger] tree_containers(tree)[c].contains(
            x,
        ) implies !todo.contains(x) by {
        if todo.contains(x) {
            assert(tree_root(tree) == Some(x));
        }
    }
}

/// The list with `t` replaced by `a` and `b`.
spec fn swapped(s: Seq<u64>, t: u64, a: u64, b: u64) -> Seq<u64>
    decreases s.len(),
{
    if s.len() == 0 {
        s
    } else if s.last() == t {
        swapped(s.drop_last(), t, a, b).push(a).push(b)
    } else {
        swapped(s.drop_last(), t, a, b).push(s.last())
    }
}

proof fn lemma_swapped_first(s: Seq<u64>, t: u64, a: u64, b: u64)
    requires
        s.len() > 0,
    ensures
        swapped(s, t, a, b) == (if s[0] == t {
            seq![a, b]
        } else {
            seq![s[0]]
        }) + swapped(s.skip(1), t, a, b),
    decreases s.len(),
{
    let head = if s[0] == t {
        seq![a, b]
    } else {
        seq![s[0]]
    };
    if s.len() == 1 {
        assert(s.drop_last() =~= Seq::empty());
        assert(s.skip(1) =~= Seq::empty());
        assert(swapped(s, t, a, b) =~= head + swapped(s.skip(1), t, a, b));
    } else {
        lemma_swapped_first(s.drop_last(), t, a, b);
        assert(s.drop_last().skip(1) =~= s.skip(1).drop_last());
        assert(s.skip(1).last() == s.last());
        assert(swapped(s, t, a, b) =~= head + swapped(s.skip(1), t, a, b));
    }
}

proof fn lemma_swapped_none(s: Seq<u64>, t: u64, a: u64, b: u64)
    requires
        !s.contains(t),
    ensures
        swapped(s, t, a, b) == s,
    decreases s.len(),
{
    if s.len() > 0 {
        let rest = s.drop_last();
        assert(!rest.contains(t)) by {
            if rest.contains(t) {
                let i = rest.index_of(t);
                assert(s[i] == t);
            }
        }
        assert(s[s.len() - 1] != t);
        lemma_swapped_none(rest, t, a, b);
        assert(rest.push(s.last()) =~= s);
    }
}

proof fn lemma_swapped_holds(s: Seq<u64>, t: u64, a: u64, b: u64)
    ensures
        forall|x: u64| s.contains(x) && x != t ==> #[trigger] swapped(s, t, a, b).contains(x),
        s.contains(t) ==> swapped(s, t, a, b).contains(a) && swapped(s, t, a, b).contains(b),
    decreases s.len(),
{
    if s.len() > 0 {
        let rest = s.drop_last();
        let less = swapped(rest, t, a, b);
        lemma_swapped_holds(rest, t, a, b);
        assert(s =~= rest.push(s.last()));
        assert forall|x: u64| s.contains(x) && x != t implies #[trigger] swapped(
            s,
            t,
            a,
            b,
        ).contains(x) by {
            lemma_push_contains(rest, s.last(), x);
            lemma_push_contains(less, s.last(), x);
            lemma_push_contains(less, a, x);
            lemma_push_contains(less.push(a), b, x);
        }
        lemma_push_contains(rest, s.last(), t);
        lemma_push_contains(less, s.last(), a);
        lemma_push_contains(less, s.last(), b);
        lemma_push_contains(less, a, a);
        lemma_push_contains(less.push(a), b, a);
        lemma_push_contains(less.push(a), b, b);
    }
}

/// Once the split tile is past, the walk goes on as before.
proof fn lemma_met_past(
    panes: Map<u64, u64>,
    containers: Map<u64, Seq<u64>>,
    todo: Seq<u64>,
    entered: Set<u64>,
    budget: nat,
    t: u64,
    a: u64,
    b: u64,
    p: u64,
    n: u64,
)
    requires
        past(containers, todo, entered, t),
        past(containers, todo, entered, a),
        past(containers, todo, entered, b),
    ensures
        met(
            panes.insert(a, p).insert(b, n).remove(t),
            containers.insert(t, seq![a, b]),
            todo,
            entered.insert(t),
            budget,
        ) == met(panes, containers, todo, entered, budget),
    decreases budget, todo.len(),
{
    if todo.len() > 0 {
        let x = todo[0];
        let rest = todo.skip(1);
        lemma_rest(todo);
        assert(todo.contains(x));
        if panes.contains_key(x) {
            lemma_met_past(panes, containers, rest, entered, budget, t, a, b, p, n);
        } else if containers.contains_key(x) && !entered.contains(x) && budget > 0 {
            lemma_both(containers[x], rest);
            assert(entered.insert(x).insert(t) =~= entered.insert(t).insert(x));
            lemma_met_past(
                panes,
                containers,
                containers[x] + rest,
                entered.insert(x),
                (budget - 1) as nat,
                t,
                a,
                b,
                p,
                n,
            );
        } else {
            lemma_met_past(panes, containers, rest, entered, budget, t, a, b, p, n);
        }
    }
}

/// A walk that meets a tile that was split meets its two parts instead.
proof fn lemma_met_split(
    panes: Map<u64, u64>,
    containers: Map<u64, Seq<u64>>,
    todo: Seq<u64>,
    entered: Set<u64>,
    t: u64,
    a: u64,
    b: u64,
    p: u64,
    n: u64,
)
    requires
        containers.dom().finite(),
        panes.contains_key(t),
        !containers.contains_key(t),
        !entered.contains(t),
        a != b,
        !panes.contains_key(a) && !panes.contains_key(b),
        !containers.contains_key(a) && !containers.contains_key(b),
        once(containers, todo, entered),
        past(containers, todo, entered, a),
        past(containers, todo, entered, b),
        met(
            panes,
            containers,
            todo,
            entered,
            containers.dom().difference(entered).len(),
        ).contains(t),
    ensures
        met(
            panes.insert(a, p).insert(b, n).remove(t),
            containers.insert(t, seq![a, b]),
            todo,
            entered,
            containers.dom().difference(entered).len() + 1,
        ) == swapped(
            met(panes, containers, todo, entered, containers.dom().difference(entered).len()),
            t,
            a,
            b,
        ),
    decreases containers.dom().difference(entered).len(), todo.len(),
{
    let budget = containers.dom().difference(entered).len();
    let ps = panes.insert(a, p).insert(b, n).remove(t);
    let cs = containers.insert(t, seq![a, b]);
    assert(todo.len() > 0);
    let x = todo[0];
    let rest = todo.skip(1);
    lemma_rest(todo);
    lemma_once_steps(containers, todo, entered);
    assert(todo.contains(x));
    if x == t {
        let after = met(panes, containers, rest, entered, budget);
        lemma_met_past(panes, containers, rest, entered, budget, t, a, b, p, n);
        lemma_past_is_not_met(panes, containers, rest, entered, budget, t);
        lemma_swapped_first(seq![t] + after, t, a, b);
        assert((seq![t] + after).skip(1) =~= after);
        lemma_swapped_none(after, t, a, b);
        let two = seq![a, b] + rest;
        assert(cs[t] == seq![a, b]);
        assert(two[0] == a);
        assert(two.skip(1) =~= seq![b] + rest);
        assert((seq![b] + rest)[0] == b);
        assert((seq![b] + rest).skip(1) =~= rest);
        assert(ps.contains_key(a) && ps.contains_key(b));
        let more = met(ps, cs, rest, entered.insert(t), budget);
        assert(met(ps, cs, seq![b] + rest, entered.insert(t), budget) == seq![b] + more);
        assert(met(ps, cs, two, entered.insert(t), budget) == seq![a] + (seq![b] + more));
        assert(seq![a] + (seq![b] + more) =~= seq![a, b] + more);
        assert(met(ps, cs, todo, entered, budget + 1) == met(
            ps,
            cs,
            two,
            entered.insert(t),
            budget,
        ));
    } else if panes.contains_key(x) {
        let after = met(panes, containers, rest, entered, budget);
        lemma_both(seq![x], after);
        assert(!seq![x].contains(t));
        lemma_met_split(panes, containers, rest, entered, t, a, b, p, n);
        lemma_swapped_first(seq![x] + after, t, a, b);
        assert((seq![x] + after).skip(1) =~= after);
        assert(ps.contains_key(x));
    } else if containers.contains_key(x) && !entered.contains(x) {
        let open = containers.dom().difference(entered);
        assert(open.contains(x));
        assert(open.remove(x) =~= containers.dom().difference(entered.insert(x)));
        assert(budget > 0);
        lemma_both(containers[x], rest);
        lemma_met_split(
            panes,
            containers,
            containers[x] + rest,
            entered.insert(x),
            t,
            a,
            b,
            p,
            n,
        );
        assert(cs[x] == containers[x]);
    } else {
        lemma_met_split(panes, containers, rest, entered, t, a, b, p, n);
    }
}

/// The panes of the two parts stand where the pane of the split tile stood.
proof fn lemma_panes_beside(
    panes: Map<u64, u64>,
    tiles: Seq<u64>,
    t: u64,
    a: u64,
    b: u64,
    pane: PaneId,
    new: PaneId,
)
    requires
        t != a && t != b && a != b,
        forall|i: int|
            0 <= i < tiles.len() ==> (panes[#[trigger] tiles[i]] == pane.id <==> tiles[i] == t)
                && tiles[i] != a && tiles[i] != b,
    ensures
        panes_of(
            panes.insert(a, pane.id).insert(b, new.id).remove(t),
            swapped(tiles, t, a, b),
        ) == grid::beside(panes_of(panes, tiles), pane, new),
    decreases tiles.len(),
{
    let ps = panes.insert(a, pane.id).insert(b, new.id).remove(t);
    let all = panes_of(panes, tiles);
    if tiles.len() > 0 {
        let rest = tiles.drop_last();
        assert forall|i: int| 0 <= i < rest.len() implies (panes[#[trigger] rest[i]] == pane.id
            <==> rest[i] == t) && rest[i] != a && rest[i] != b by {
            assert(rest[i] == tiles[i]);
        }
        lemma_panes_beside(panes, rest, t, a, b, pane, new);
        assert(all.drop_last() =~= panes_of(panes, rest));
        assert(tiles[tiles.len() - 1] == tiles.last());
        assert(panes_of(ps, swapped(tiles, t, a, b)) =~= grid::beside(all, pane, new));
    } else {
        assert(panes_of(ps, swapped(tiles, t, a, b)) =~= all);
    }
}

/// Splitting a tile of a tree that agrees with a list leaves a tree that agrees
/// with the list and the new pane behind the old one.
pub proof fn splitting_adds_one_pane(
    before: egui_tiles::Tree<u64>,
    after: egui_tiles::Tree<u64>,
    panes: Seq<PaneId>,
    pane: PaneId,
    new: PaneId,
    dir: SplitDir,
)
    requires
        agrees(before, panes),
        !panes.contains(new),
        splits_tile(before, after, pane, new, dir),
    ensures
        agrees(after, grid::beside(panes, pane, new)),
{
    let (t, a, b) = choose|t: u64, a: u64, b: u64| #[trigger]
        split_tile(before, after, pane, new, dir, t, a, b);
    let ps = tree_panes(before);
    let cs = tree_containers(before);
    let tiles = shown_tiles(before);
    let none = Set::<u64>::empty();
    assert(ps.contains_key(t));
    assert(tiles.contains(t));
    assert(cs.dom().difference(none) =~= cs.dom());
    lemma_once_starts(before);
    lemma_met_are_panes(ps, cs, top(before), none, cs.len());
    lemma_met_split(ps, cs, top(before), none, t, a, b, pane.id, new.id);
    assert(tree_containers(after).dom() =~= cs.dom().insert(t));
    assert(shown_tiles(after) == swapped(tiles, t, a, b));
    assert forall|i: int| 0 <= i < tiles.len() implies (ps[#[trigger] tiles[i]] == pane.id
        <==> tiles[i] == t) && tiles[i] != a && tiles[i] != b by {
        if ps[tiles[i]] == pane.id {
            assert(tile_shows(before, tiles[i], pane.id));
        }
    }
    lemma_panes_beside(ps, tiles, t, a, b, pane, new);
    lemma_swapped_holds(tiles, t, a, b);
    let cs2 = tree_containers(after);
    assert(cs2[t] == seq![a, b]);
    assert forall|x: u64| #[trigger] cs2[t].contains(x) implies x == a || x == b by {}
    assert(linked_once(after)) by {
        assert forall|c: u64| #[trigger] cs2.contains_key(c) implies cs2[c].no_duplicates() by {
            if c != t {
                assert(cs.contains_key(c));
            }
        }
        assert forall|c: u64, d: u64, x: u64|
            cs2.contains_key(c) && cs2.contains_key(d) && c != d && #[trigger] cs2[c].contains(
                x,
            ) implies !#[trigger] cs2[d].contains(x) by {
            if c == t {
                assert(cs.contains_key(d) && cs2[d] == cs[d]);
            } else if d == t {
                assert(cs.contains_key(c) && cs2[c] == cs[c]);
            } else {
                assert(cs2[c] == cs[c] && cs2[d] == cs[d]);
            }
        }
        assert forall|c: u64, x: u64|
            cs2.contains_key(c) && #[trigger] cs2[c].contains(x) implies tree_root(after)
            != Some(x) by {
            if c != t {
                assert(cs.contains_key(c) && cs2[c] == cs[c]);
            }
        }
    }
    assert forall|s: u64, u: u64, p: u64|
        #[trigger] tile_shows(after, s, p) && #[trigger] tile_shows(after, u, p) implies s
        == u by {
        if s != a && s != b {
            assert(tile_shows(before, s, p));
            lemma_shown_is_listed(before, s);
        }
        if u != a && u != b {
            assert(tile_shows(before, u, p));
            lemma_shown_is_listed(before, u);
        }
        lemma_shown_is_listed(before, t);
    }
    assert forall|s: u64| #[trigger] tree_panes(after).contains_key(s) implies shown_tiles(
        after,
    ).contains(s) by {
        if s != a && s != b {
            assert(ps.contains_key(s));
            assert(tiles.contains(s) && s != t);
        }
    }
}

/// The pane of a tile that is shown is listed.
proof fn lemma_shown_is_listed(tree: egui_tiles::Tree<u64>, t: u64)
    requires
        shown_tiles(tree).contains(t),
    ensures
        listed(tree).contains(PaneId { id: tree_panes(tree)[t] }),
{
    let i = shown_tiles(tree).index_of(t);
    assert(listed(tree)[i] == PaneId { id: tree_panes(tree)[t] });
}

/// A tree that agrees with a list names no pane twice, and stores the panes of
/// the list and no other.
pub proof fn a_tree_shows_none_twice(tree: egui_tiles::Tree<u64>, panes: Seq<PaneId>)
    requires
        agrees(tree, panes),
    ensures
        panes.no_duplicates(),
        forall|p: PaneId| #[trigger] panes.contains(p) <==> shows(tree, p.id),
{
    let tiles = shown_tiles(tree);
    let ps = tree_panes(tree);
    let cs = tree_containers(tree);
    lemma_once_starts(tree);
    lemma_met_once(ps, cs, top(tree), Set::empty(), cs.len());
    lemma_met_are_panes(ps, cs, top(tree), Set::empty(), cs.len());
    assert forall|i: int, j: int|
        0 <= i < panes.len() && 0 <= j < panes.len() && i != j implies panes[i] != panes[j] by {
        if panes[i] == panes[j] {
            assert(tile_shows(tree, tiles[i], panes[i].id));
            assert(tile_shows(tree, tiles[j], panes[i].id));
        }
    }
    assert forall|p: PaneId| #[trigger] panes.contains(p) <==> shows(tree, p.id) by {
        if panes.contains(p) {
            let i = panes.index_of(p);
            assert(tile_shows(tree, tiles[i], p.id));
        }
        if shows(tree, p.id) {
            let t = choose|t: u64| #[trigger] tile_shows(tree, t, p.id);
            assert(ps.contains_key(t));
            lemma_shown_is_listed(tree, t);
        }
    }
}

/// A number that is past is not met.
proof fn lemma_past_is_not_met(
    panes: Map<u64, u64>,
    containers: Map<u64, Seq<u64>>,
    todo: Seq<u64>,
    entered: Set<u64>,
    budget: nat,
    t: u64,
)
    requires
        past(containers, todo, entered, t),
    ensures
        !met(panes, containers, todo, entered, budget).contains(t),
    decreases budget, todo.len(),
{
    if todo.len() > 0 {
        let x = todo[0];
        let rest = todo.skip(1);
        lemma_rest(todo);
        assert(todo.contains(x));
        if panes.contains_key(x) {
            lemma_past_is_not_met(panes, containers, rest, entered, budget, t);
            lemma_both(seq![x], met(panes, containers, rest, entered, budget));
            assert(!seq![x].contains(t));
        } else if containers.contains_key(x) && !entered.contains(x) && budget > 0 {
            lemma_both(containers[x], rest);
            lemma_past_is_not_met(
                panes,
                containers,
                containers[x] + rest,
                entered.insert(x),
                (budget - 1) as nat,
                t,
            );
        } else {
            lemma_past_is_not_met(panes, containers, rest, entered, budget, t);
        }
    }
}

/// A walk that meets nothing twice meets no pane tile twice.
proof fn lemma_met_once(
    panes: Map<u64, u64>,
    containers: Map<u64, Seq<u64>>,
    todo: Seq<u64>,
    entered: Set<u64>,
    budget: nat,
)
    requires
        once(containers, todo, entered),
    ensures
        met(panes, containers, todo, entered, budget).no_duplicates(),
    decreases budget, todo.len(),
{
    if todo.len() > 0 {
        let x = todo[0];
        let rest = todo.skip(1);
        lemma_once_steps(containers, todo, entered);
        if panes.contains_key(x) {
            let after = met(panes, containers, rest, entered, budget);
            lemma_met_once(panes, containers, rest, entered, budget);
            lemma_past_is_not_met(panes, containers, rest, entered, budget, x);
            let all = seq![x] + after;
            assert forall|i: int, j: int|
                0 <= i < all.len() && 0 <= j < all.len() && i != j implies all[i] != all[j] by {
                if i > 0 {
                    assert(all[i] == after[i - 1]);
                    assert(after.contains(after[i - 1]));
                }
                if j > 0 {
                    assert(all[j] == after[j - 1]);
                    assert(after.contains(after[j - 1]));
                }
            }
        } else if containers.contains_key(x) && !entered.contains(x) && budget > 0 {
            lemma_met_once(
                panes,
                containers,
                containers[x] + rest,
                entered.insert(x),
                (budget - 1) as nat,
            );
        } else {
            lemma_met_once(panes, containers, rest, entered, budget);
        }
    }
}

/// Splitting a tile puts two new tiles in its place, the old pane in the first
/// and the new one in the second: side by side where it is split horizontally,
/// one above the other where it is split vertically. Every other tile is as it
/// was.
pub proof fn a_split_puts_the_new_pane_behind(
    before: egui_tiles::Tree<u64>,
    after: egui_tiles::Tree<u64>,
    pane: PaneId,
    new: PaneId,
    dir: SplitDir,
) -> (r: (u64, u64, u64))
    requires
        splits_tile(before, after, pane, new, dir),
    ensures
        ({
            let (t, a, b) = r;
            &&& tree_panes(before).contains_key(t) && tree_panes(before)[t] == pane.id
            &&& !tree_panes(after).contains_key(t)
            &&& tree_containers(after).contains_key(t) && tree_containers(after)[t] == seq![a, b]
            &&& tree_lines(after).contains_key(t)
            &&& dir == SplitDir::Horizontal ==> tree_lines(after)[t]
            &&& dir == SplitDir::Vertical ==> !tree_lines(after)[t]
            &&& a != b && a != t && b != t
            &&& tree_panes(after).contains_key(a) && tree_panes(after)[a] == pane.id
            &&& tree_panes(after).contains_key(b) && tree_panes(after)[b] == new.id
            &&& !tree_panes(before).contains_key(a) && !tree_panes(before).contains_key(b)
            &&& !tree_containers(before).contains_key(a) && !tree_containers(before).contains_key(
                b,
            )
            &&& tree_root(before) != Some(a) && tree_root(before) != Some(b)
            &&& tree_root(after) == tree_root(before)
            &&& forall|x: u64|
                x != t && x != a && x != b ==> (#[trigger] tree_panes(after).contains_key(x)
                    <==> tree_panes(before).contains_key(x)) && tree_panes(after)[x] == tree_panes(
                    before,
                )[x]
            &&& forall|x: u64|
                x != t ==> (#[trigger] tree_containers(after).contains_key(x) <==> tree_containers(
                    before,
                ).contains_key(x)) && tree_containers(after)[x] == tree_containers(before)[x]
        }),
{
    let (t, a, b) = choose|t: u64, a: u64, b: u64| #[trigger]
        split_tile(before, after, pane, new, dir, t, a, b);
    assert(free(before, a) && free(before, b));
    (t, a, b)
}

/// A number can be given to a new tile where no tile has it, no container lists
/// it and the tile at the top does not go by it; two such numbers are needed for
/// a split.
pub proof fn a_free_number_is_nowhere_in_use(
    tree: egui_tiles::Tree<u64>,
    x: u64,
    y: u64,
    c: u64,
)
    ensures
        free(tree, x) ==> !tree_panes(tree).contains_key(x) && !tree_containers(tree).contains_key(
            x,
        ) && tree_root(tree) != Some(x),
        free(tree, x) && tree_containers(tree).contains_key(c) ==> !tree_containers(
            tree,
        )[c].contains(x),
        free(tree, x) && free(tree, y) && x != y ==> has_numbers(tree),
        !tree_panes(tree).contains_key(x) && !tree_containers(tree).contains_key(x) && tree_root(
            tree,
        ) != Some(x) && (forall|d: u64| #[trigger]
            tree_containers(tree).contains_key(d) ==> !tree_containers(tree)[d].contains(x))
            ==> free(tree, x),
        shows(tree, y) <==> exists|t: u64| #[trigger]
            tree_panes(tree).contains_key(t) && tree_panes(tree)[t] == y,
{
    if free(tree, x) && free(tree, y) && x != y {
        assert(both_free(tree, x, y));
    }
    if exists|t: u64| #[trigger] tree_panes(tree).contains_key(t) && tree_panes(tree)[t] == y {
        let t = choose|t: u64| #[trigger]
            tree_panes(tree).contains_key(t) && tree_panes(tree)[t] == y;
        assert(tile_shows(tree, t, y));
    }
    if shows(tree, y) {
        let t = choose|t: u64| #[trigger] tile_shows(tree, t, y);
        assert(tree_panes(tree).contains_key(t));
    }
}

/// What stands in a container is shown in the container's place, in its order,
/// before what stands behind the container.
pub proof fn a_container_is_read_in_its_place(
    panes: Map<u64, u64>,
    containers: Map<u64, Seq<u64>>,
    c: u64,
    rest: Seq<u64>,
    entered: Set<u64>,
    budget: nat,
)
    requires
        !panes.contains_key(c),
        containers.contains_key(c),
        !entered.contains(c),
        budget > 0,
        forall|i: int|
            0 <= i < containers[c].len() ==> panes.contains_key(#[trigger] containers[c][i]),
        forall|i: int| 0 <= i < rest.len() ==> panes.contains_key(#[trigger] rest[i]),
    ensures
        met(panes, containers, seq![c] + rest, entered, budget) == containers[c] + rest,
{
    let todo = seq![c] + rest;
    assert(todo.skip(1) =~= rest);
    let next = containers[c] + rest;
    assert forall|i: int| 0 <= i < next.len() implies panes.contains_key(#[trigger] next[i]) by {
        if i < containers[c].len() {
            assert(next[i] == containers[c][i]);
        } else {
            assert(next[i] == rest[i - containers[c].len()]);
        }
    }
    lemma_panes_are_met(panes, containers, next, entered.insert(c), (budget - 1) as nat);
}

/// Closing a tile takes that tile out of the tree, and no other pane tile unless
/// one stands at the top; the tile at the top is still named as such.
pub proof fn closing_takes_out_one_tile(
    before: egui_tiles::Tree<u64>,
    after: egui_tiles::Tree<u64>,
    t: u64,
    x: u64,
)
    requires
        closed_tile(before, after, t),
    ensures
        tree_root(after) == tree_root(before),
        !tree_panes(after).contains_key(t),
        x != t && tree_root(before) != Some(x) ==> (tree_panes(after).contains_key(x)
            <==> tree_panes(before).contains_key(x)) && tree_panes(after)[x] == tree_panes(
            before,
        )[x],
{
}

/// A grid shows each pane in a tile of its own, all of them in the container at
/// the top, which lays them out in no line.
pub proof fn a_grid_has_one_container(
    tree: egui_tiles::Tree<u64>,
    panes: Seq<u64>,
    ids: Seq<u64>,
    root: u64,
    t: u64,
    i: int,
    j: int,
)
    requires
        grid_of(tree, panes, ids, root),
        0 <= i < j < panes.len(),
    ensures
        tree_root(tree) == Some(root),
        tree_containers(tree).contains_key(t) <==> t == root,
        !tree_lines(tree).contains_key(t),
        ids[i] != ids[j],
        tree_panes(tree).contains_key(ids[i]) && tree_panes(tree)[ids[i]] == panes[i],
        !tree_panes(tree).contains_key(root),
        tree_containers(tree)[root].len() == panes.len(),
{
}

} // verus!
