//! What holds of every pane tree: which panes an operation leaves in it, and
//! that its panes always tile the space they are given.

use crate::geometry::{lemma_parts_tile, Rect, SplitDirection, RATIO_ONE};
use crate::layout::{Layout, Pane, PaneTree, PlacedPane};
use crate::panes::PaneId;
use vstd::prelude::*;

verus! {

/// Whether the placed panes cover `area` exactly: none reaches outside it, no
/// two share a cell, and every cell of the area belongs to one of them.
pub open spec fn tiles(placed: Seq<PlacedPane>, area: Rect) -> bool {
    &&& forall|i: int| 0 <= i < placed.len() ==> (#[trigger] placed[i]).area.within(area)
    &&& forall|i: int, j: int|
        0 <= i < j < placed.len() ==> (#[trigger] placed[i]).area.disjoint(
            (#[trigger] placed[j]).area,
        )
    &&& forall|x: int, y: int| #[trigger]
        area.contains(x, y) ==> exists|i: int|
            0 <= i < placed.len() && (#[trigger] placed[i]).area.contains(x, y)
}

/// A tree has at least one pane, and its ids are the ids of its leaves.
pub proof fn lemma_leaves(tree: PaneTree)
    ensures
        tree.leaves().len() >= 1,
        tree.pane_ids().finite(),
        forall|i: int|
            0 <= i < tree.leaves().len() ==> tree.pane_ids().contains(
                (#[trigger] tree.leaves()[i]).id,
            ),
        forall|id: PaneId|
            tree.pane_ids().contains(id) ==> exists|i: int|
                0 <= i < tree.leaves().len() && (#[trigger] tree.leaves()[i]).id == id,
    decreases tree,
{
    match tree {
        PaneTree::Leaf(pane) => {
            assert(tree.leaves()[0].id == pane.id);
        },
        PaneTree::Split { first, second, .. } => {
            lemma_leaves(*first);
            lemma_leaves(*second);
            let all = tree.leaves();
            let head = first.leaves();
            let tail = second.leaves();
            assert forall|id: PaneId| tree.pane_ids().contains(id) implies exists|i: int|
                0 <= i < all.len() && (#[trigger] all[i]).id == id by {
                if first.pane_ids().contains(id) {
                    let i = choose|i: int| 0 <= i < head.len() && (#[trigger] head[i]).id == id;
                    assert(all[i] == head[i]);
                } else {
                    let i = choose|i: int| 0 <= i < tail.len() && (#[trigger] tail[i]).id == id;
                    assert(all[head.len() + i] == tail[i]);
                }
            }
            assert forall|i: int| 0 <= i < all.len() implies tree.pane_ids().contains(
                (#[trigger] all[i]).id,
            ) by {
                if i < head.len() {
                    assert(all[i] == head[i]);
                } else {
                    assert(all[i] == tail[i - head.len()]);
                }
            }
        },
    }
}

/// In a well-formed tree no two leaves bear the same id.
pub proof fn lemma_leaves_distinct(tree: PaneTree)
    requires
        tree.wf(),
    ensures
        forall|i: int, j: int|
            0 <= i < tree.leaves().len() && 0 <= j < tree.leaves().len() && i != j ==> (
            #[trigger] tree.leaves()[i]).id != (#[trigger] tree.leaves()[j]).id,
    decreases tree,
{
    match tree {
        PaneTree::Leaf(_) => {},
        PaneTree::Split { first, second, .. } => {
            lemma_leaves_distinct(*first);
            lemma_leaves_distinct(*second);
            lemma_leaves(*first);
            lemma_leaves(*second);
            let all = tree.leaves();
            let head = first.leaves();
            let tail = second.leaves();
            assert forall|i: int, j: int|
                0 <= i < all.len() && 0 <= j < all.len() && i != j implies (#[trigger] all[i]).id
                != (#[trigger] all[j]).id by {
                if i < head.len() {
                    assert(all[i] == head[i]);
                } else {
                    assert(all[i] == tail[i - head.len()]);
                }
                if j < head.len() {
                    assert(all[j] == head[j]);
                } else {
                    assert(all[j] == tail[j - head.len()]);
                }
            }
        },
    }
}

/// The pane found under an id bears that id, and a pane is found exactly for
/// the ids of the tree.
pub proof fn lemma_find(tree: PaneTree, id: PaneId)
    ensures
        tree.find(id) is Some <==> tree.pane_ids().contains(id),
        tree.find(id) matches Some(pane) ==> pane.id == id && tree.leaves().contains(pane),
    decreases tree,
{
    match tree {
        PaneTree::Leaf(pane) => {
            if pane.id == id {
                assert(tree.leaves()[0] == pane);
            }
        },
        PaneTree::Split { first, second, .. } => {
            lemma_find(*first, id);
            lemma_find(*second, id);
            let all = tree.leaves();
            if let Some(pane) = first.find(id) {
                let i = choose|i: int| 0 <= i < first.leaves().len() && first.leaves()[i] == pane;
                assert(all[i] == pane);
            } else if let Some(pane) = second.find(id) {
                let i = choose|i: int|
                    0 <= i < second.leaves().len() && second.leaves()[i] == pane;
                assert(all[first.leaves().len() + i] == pane);
            }
        },
    }
}

/// The placed panes are the leaves, each with some cells.
pub proof fn lemma_placed_leaves(tree: PaneTree, area: Rect)
    ensures
        tree.placed(area).len() == tree.leaves().len(),
        forall|i: int|
            0 <= i < tree.leaves().len() ==> (#[trigger] tree.placed(area)[i]).pane
                == tree.leaves()[i],
    decreases tree,
{
    match tree {
        PaneTree::Leaf(_) => {},
        PaneTree::Split { direction, ratio, first, second } => {
            let a = area.first_part(direction, ratio);
            let b = area.second_part(direction, ratio);
            lemma_placed_leaves(*first, a);
            lemma_placed_leaves(*second, b);
            let n = first.leaves().len() as int;
            assert forall|i: int| 0 <= i < tree.leaves().len() implies (#[trigger] tree.placed(
                area,
            )[i]).pane == tree.leaves()[i] by {
                if i < n {
                    assert(tree.placed(area)[i] == first.placed(a)[i]);
                } else {
                    assert(tree.placed(area)[i] == second.placed(b)[i - n]);
                }
            }
        },
    }
}

/// The panes of a tree tile the space that the tree is given.
pub proof fn lemma_tree_tiles(tree: PaneTree, area: Rect)
    requires
        tree.wf(),
        area.fits(),
    ensures
        tiles(tree.placed(area), area),
    decreases tree,
{
    match tree {
        PaneTree::Leaf(_) => {
            let placed = tree.placed(area);
            assert forall|x: int, y: int| #[trigger] area.contains(x, y) implies exists|i: int|
                0 <= i < placed.len() && (#[trigger] placed[i]).area.contains(x, y) by {
                assert(placed[0].area.contains(x, y));
            }
        },
        PaneTree::Split { direction, ratio, first, second } => {
            let a = area.first_part(direction, ratio);
            let b = area.second_part(direction, ratio);
            lemma_parts_tile(area, direction, ratio);
            lemma_tree_tiles(*first, a);
            lemma_tree_tiles(*second, b);
            let head = first.placed(a);
            let tail = second.placed(b);
            let placed = tree.placed(area);
            let n = head.len() as int;
            assert forall|i: int| 0 <= i < placed.len() implies (#[trigger] placed[i]).area.within(
                area,
            ) by {
                if i < n {
                    assert(placed[i] == head[i]);
                } else {
                    assert(placed[i] == tail[i - n]);
                }
            }
            assert forall|i: int, j: int| 0 <= i < j < placed.len() implies (
            #[trigger] placed[i]).area.disjoint((#[trigger] placed[j]).area) by {
                if j < n {
                    assert(placed[i] == head[i]);
                    assert(placed[j] == head[j]);
                } else if i >= n {
                    assert(placed[i] == tail[i - n]);
                    assert(placed[j] == tail[j - n]);
                } else {
                    assert(placed[i] == head[i]);
                    assert(placed[j] == tail[j - n]);
                    let p = placed[i].area;
                    let q = placed[j].area;
                    assert forall|x: int, y: int| !(#[trigger] p.contains(x, y) && q.contains(
                        x,
                        y,
                    )) by {
                        if p.contains(x, y) && q.contains(x, y) {
                            assert(a.contains(x, y));
                            assert(b.contains(x, y));
                        }
                    }
                }
            }
            assert forall|x: int, y: int| #[trigger] area.contains(x, y) implies exists|i: int|
                0 <= i < placed.len() && (#[trigger] placed[i]).area.contains(x, y) by {
                if a.contains(x, y) {
                    let i = choose|i: int|
                        0 <= i < head.len() && (#[trigger] head[i]).area.contains(x, y);
                    assert(placed[i] == head[i]);
                } else {
                    assert(b.contains(x, y));
                    let i = choose|i: int|
                        0 <= i < tail.len() && (#[trigger] tail[i]).area.contains(x, y);
                    assert(placed[n + i] == tail[i]);
                }
            }
        },
    }
}

/// Splitting a pane that the tree does not have changes nothing; splitting
/// one that it has adds the new pane and no other.
pub proof fn lemma_split(tree: PaneTree, target: PaneId, direction: SplitDirection, pane: Pane)
    requires
        tree.wf(),
        !tree.pane_ids().contains(pane.id),
    ensures
        !tree.pane_ids().contains(target) ==> tree.with_split(target, direction, pane) == tree,
        tree.pane_ids().contains(target) ==> tree.with_split(target, direction, pane).pane_ids()
            == tree.pane_ids().insert(pane.id),
        tree.with_split(target, direction, pane).wf(),
    decreases tree,
{
    match tree {
        PaneTree::Leaf(old) => {
            if old.id == target {
                let kept = PaneTree::Leaf(old);
                let added = PaneTree::Leaf(pane);
                assert(kept.pane_ids() =~= set![old.id]);
                assert(added.pane_ids() =~= set![pane.id]);
                assert(kept.wf() && added.wf());
                assert(kept.pane_ids().disjoint(added.pane_ids()));
                assert(tree.with_split(target, direction, pane).pane_ids() =~= tree.pane_ids().insert(
                    pane.id,
                ));
            }
        },
        PaneTree::Split { first, second, .. } => {
            lemma_split(*first, target, direction, pane);
            lemma_split(*second, target, direction, pane);
            if tree.pane_ids().contains(target) {
                assert(tree.with_split(target, direction, pane).pane_ids() =~= tree.pane_ids().insert(
                    pane.id,
                ));
            }
        },
    }
}

/// Taking out a pane that the tree does not have changes nothing; taking out
/// one that it has leaves the other panes, or nothing if it was the only one.
pub proof fn lemma_without(tree: PaneTree, id: PaneId)
    requires
        tree.wf(),
    ensures
        !tree.pane_ids().contains(id) ==> tree.without(id) == Some(tree),
        tree.without(id) is None <==> tree.pane_ids() == set![id],
        tree.without(id) matches Some(rest) ==> rest.wf() && rest.pane_ids()
            == tree.pane_ids().remove(id),
    decreases tree,
{
    match tree {
        PaneTree::Leaf(pane) => {
            if pane.id != id {
                assert(tree.pane_ids().remove(id) =~= tree.pane_ids());
                assert(tree.pane_ids().contains(pane.id));
                assert(!set![id].contains(pane.id));
            } else {
                assert(tree.pane_ids() =~= set![id]);
            }
        },
        PaneTree::Split { first, second, .. } => {
            lemma_without(*first, id);
            lemma_without(*second, id);
            lemma_leaves(*first);
            lemma_leaves(*second);
            let a = first.leaves()[0].id;
            let b = second.leaves()[0].id;
            assert(first.pane_ids().contains(a));
            assert(second.pane_ids().contains(b));
            assert(a != b);
            assert(tree.pane_ids().contains(a) && tree.pane_ids().contains(b));
            assert(!(set![id].contains(a) && set![id].contains(b)));
            match (first.without(id), second.without(id)) {
                (Some(f), Some(s)) => {
                    assert(tree.without(id).unwrap().pane_ids() =~= tree.pane_ids().remove(id));
                },
                (Some(f), None) => {
                    assert(second.pane_ids().contains(id));
                    assert(f.pane_ids() =~= tree.pane_ids().remove(id));
                },
                (None, Some(s)) => {
                    assert(first.pane_ids().contains(id));
                    assert(s.pane_ids() =~= tree.pane_ids().remove(id));
                },
                (None, None) => {
                    assert(first.pane_ids().contains(id) && second.pane_ids().contains(id));
                },
            }
        },
    }
}

/// Closing the pane that a split has just opened gives back the tree as it
/// was before the split.
pub proof fn lemma_split_then_close(
    tree: PaneTree,
    target: PaneId,
    direction: SplitDirection,
    pane: Pane,
)
    requires
        tree.wf(),
        !tree.pane_ids().contains(pane.id),
    ensures
        tree.with_split(target, direction, pane).without(pane.id) == Some(tree),
    decreases tree,
{
    match tree {
        PaneTree::Leaf(old) => {
            assert(tree.pane_ids().contains(old.id));
            let kept = PaneTree::Leaf(old);
            let added = PaneTree::Leaf(pane);
            assert(kept.without(pane.id) == Some(kept));
            assert(added.without(pane.id) is None);
        },
        PaneTree::Split { first, second, .. } => {
            lemma_split_then_close(*first, target, direction, pane);
            lemma_split_then_close(*second, target, direction, pane);
        },
    }
}

/// Changing the settings of a pane keeps the ids of the tree, and changes
/// nothing where the tree has no pane of that id.
pub proof fn lemma_with_pane(tree: PaneTree, pane: Pane)
    requires
        tree.wf(),
    ensures
        tree.with_pane(pane).wf(),
        tree.with_pane(pane).pane_ids() == tree.pane_ids(),
        !tree.pane_ids().contains(pane.id) ==> tree.with_pane(pane) == tree,
        tree.pane_ids().contains(pane.id) ==> tree.with_pane(pane).find(pane.id) == Some(pane),
        forall|other: PaneId|
            other != pane.id ==> tree.with_pane(pane).find(other) == tree.find(other),
    decreases tree,
{
    match tree {
        PaneTree::Leaf(old) => {
            if old.id == pane.id {
                assert(tree.with_pane(pane).pane_ids() =~= tree.pane_ids());
            }
            assert forall|other: PaneId| other != pane.id implies tree.with_pane(pane).find(other)
                == tree.find(other) by {}
        },
        PaneTree::Split { first, second, .. } => {
            lemma_with_pane(*first, pane);
            lemma_with_pane(*second, pane);
            lemma_find(*first, pane.id);
            lemma_find(first.with_pane(pane), pane.id);
            assert forall|other: PaneId| other != pane.id implies tree.with_pane(pane).find(other)
                == tree.find(other) by {
                assert(first.with_pane(pane).find(other) == first.find(other));
                assert(second.with_pane(pane).find(other) == second.find(other));
            }
        },
    }
}

/// Moving a divider keeps the panes of the tree and their order.
pub proof fn lemma_with_ratio(tree: PaneTree, target: PaneId, direction: SplitDirection, ratio: u16)
    requires
        tree.wf(),
        ratio <= RATIO_ONE,
    ensures
        tree.with_ratio(target, direction, ratio).wf(),
        tree.with_ratio(target, direction, ratio).pane_ids() == tree.pane_ids(),
        tree.with_ratio(target, direction, ratio).leaves() == tree.leaves(),
        !(tree.enclosing(target, direction) is Ratio) ==> tree.with_ratio(target, direction, ratio)
            == tree,
        tree.enclosing(target, direction) is Ratio ==> tree.with_ratio(
            target,
            direction,
            ratio,
        ).enclosing(target, direction) == crate::layout::Enclosing::Ratio(ratio),
    decreases tree,
{
    match tree {
        PaneTree::Leaf(_) => {},
        PaneTree::Split { first, second, .. } => {
            lemma_with_ratio(*first, target, direction, ratio);
            lemma_with_ratio(*second, target, direction, ratio);
            lemma_enclosing(*first, target, direction);
            lemma_enclosing(*second, target, direction);
        },
    }
}

/// A split is looked for around the panes of the tree only.
pub proof fn lemma_enclosing(tree: PaneTree, target: PaneId, direction: SplitDirection)
    ensures
        tree.enclosing(target, direction) is Absent <==> !tree.pane_ids().contains(target),
        tree.enclosing(target, direction) matches crate::layout::Enclosing::Ratio(r) ==> (tree.wf()
            ==> r <= RATIO_ONE),
    decreases tree,
{
    match tree {
        PaneTree::Leaf(_) => {},
        PaneTree::Split { first, second, .. } => {
            lemma_enclosing(*first, target, direction);
            lemma_enclosing(*second, target, direction);
        },
    }
}

/// A plan has at least one pane.
pub proof fn lemma_layout_count(layout: Layout)
    ensures
        layout.leaf_count() >= 1,
    decreases layout,
{
    match layout {
        Layout::Pane(_) => {},
        Layout::Split { first, second, .. } => {
            lemma_layout_count(*first);
            lemma_layout_count(*second);
        },
    }
}

/// A plan opened under as many distinct ids as it has panes gives a tiling of
/// exactly those panes.
pub proof fn lemma_populated(layout: Layout, ids: Seq<PaneId>)
    requires
        layout.wf(),
        ids.len() == layout.leaf_count(),
        ids.no_duplicates(),
    ensures
        layout.populated(ids).wf(),
        layout.populated(ids).pane_ids() == ids.to_set(),
        layout.populated(ids).leaves().len() == ids.len(),
        forall|i: int| 0 <= i < ids.len() ==> (#[trigger] layout.populated(ids).leaves()[i]).id == ids[i],
    decreases layout,
{
    match layout {
        Layout::Pane(_) => {
            assert(ids.to_set() =~= set![ids[0]]) by {
                assert forall|id: PaneId| ids.to_set().contains(id) implies id == ids[0] by {
                    let i = choose|i: int| 0 <= i < ids.len() && ids[i] == id;
                }
                assert(ids.contains(ids[0]));
            }
        },
        Layout::Split { first, second, .. } => {
            lemma_layout_count(*first);
            lemma_layout_count(*second);
            let n = first.leaf_count() as int;
            let head = ids.take(n);
            let tail = ids.skip(n);
            lemma_populated(*first, head);
            lemma_populated(*second, tail);
            let tree = layout.populated(ids);
            assert forall|id: PaneId| ids.to_set().contains(id) <==> head.to_set().contains(id)
                || tail.to_set().contains(id) by {
                if ids.to_set().contains(id) {
                    let i = choose|i: int| 0 <= i < ids.len() && ids[i] == id;
                    if i < n {
                        assert(head[i] == id);
                    } else {
                        assert(tail[i - n] == id);
                    }
                }
                if head.to_set().contains(id) {
                    let i = choose|i: int| 0 <= i < head.len() && head[i] == id;
                    assert(ids[i] == id);
                }
                if tail.to_set().contains(id) {
                    let i = choose|i: int| 0 <= i < tail.len() && tail[i] == id;
                    assert(ids[i + n] == id);
                }
            }
            assert(tree.pane_ids() =~= ids.to_set());
            assert forall|id: PaneId|
                !(head.to_set().contains(id) && tail.to_set().contains(id)) by {
                if head.to_set().contains(id) && tail.to_set().contains(id) {
                    let i = choose|i: int| 0 <= i < head.len() && head[i] == id;
                    let j = choose|j: int| 0 <= j < tail.len() && tail[j] == id;
                    assert(ids[i] == ids[j + n]);
                }
            }
            let front = first.populated(head).leaves();
            let back = second.populated(tail).leaves();
            assert forall|i: int| 0 <= i < ids.len() implies (#[trigger] tree.leaves()[i]).id
                == ids[i] by {
                if i < n {
                    assert(tree.leaves()[i] == front[i]);
                    assert(head[i] == ids[i]);
                } else {
                    assert(tree.leaves()[i] == back[i - n]);
                    assert(tail[i - n] == ids[i]);
                }
            }
        },
    }
}

/// Whether no two of the panes bear the same id.
pub open spec fn distinct_ids(panes: Seq<Pane>) -> bool {
    forall|i: int, j: int|
        0 <= i < panes.len() && 0 <= j < panes.len() && i != j ==> (#[trigger] panes[i]).id != (
        #[trigger] panes[j]).id
}

/// Among panes of distinct ids, a pane is found at its own place.
pub proof fn lemma_index_of_pane(panes: Seq<Pane>, id: PaneId, at: int)
    requires
        distinct_ids(panes),
        0 <= at < panes.len(),
        panes[at].id == id,
    ensures
        crate::focus::index_of_pane(panes, id) == at,
{
}

/// A pane leaves a tree with no other: the leaves keep their order.
pub proof fn lemma_without_leaves(tree: PaneTree, id: PaneId, at: int)
    requires
        tree.wf(),
        0 <= at < tree.leaves().len(),
        tree.leaves()[at].id == id,
    ensures
        tree.without(id) is None ==> tree.leaves().len() == 1,
        tree.without(id) matches Some(rest) ==> rest.leaves() == tree.leaves().remove(at),
    decreases tree,
{
    match tree {
        PaneTree::Leaf(_) => {},
        PaneTree::Split { first, second, .. } => {
            lemma_leaves(*first);
            lemma_leaves(*second);
            lemma_without(*first, id);
            lemma_without(*second, id);
            let head = first.leaves();
            let tail = second.leaves();
            let n = head.len() as int;
            if at < n {
                assert(tree.leaves()[at] == head[at]);
                assert(first.pane_ids().contains(id));
                assert(!second.pane_ids().contains(id));
                lemma_without_leaves(*first, id, at);
                match first.without(id) {
                    Some(f) => {
                        assert(tree.without(id).unwrap().leaves() =~= tree.leaves().remove(at));
                    },
                    None => {
                        assert(tree.without(id).unwrap().leaves() =~= tree.leaves().remove(at));
                    },
                }
            } else {
                assert(tree.leaves()[at] == tail[at - n]);
                assert(second.pane_ids().contains(id));
                assert(!first.pane_ids().contains(id));
                lemma_without_leaves(*second, id, at - n);
                match second.without(id) {
                    Some(f) => {
                        assert(tree.without(id).unwrap().leaves() =~= tree.leaves().remove(at));
                    },
                    None => {
                        assert(tree.without(id).unwrap().leaves() =~= tree.leaves().remove(at));
                    },
                }
            }
        },
    }
}

/// The pane that a split opens comes right after the pane that made room.
pub proof fn lemma_split_leaves(
    tree: PaneTree,
    target: PaneId,
    direction: SplitDirection,
    pane: Pane,
    at: int,
)
    requires
        tree.wf(),
        0 <= at < tree.leaves().len(),
        tree.leaves()[at].id == target,
    ensures
        tree.with_split(target, direction, pane).leaves() == tree.leaves().insert(at + 1, pane),
    decreases tree,
{
    match tree {
        PaneTree::Leaf(old) => {
            let kept = PaneTree::Leaf(old);
            let added = PaneTree::Leaf(pane);
            assert(kept.leaves() =~= seq![old]);
            assert(added.leaves() =~= seq![pane]);
            assert(tree.with_split(target, direction, pane).leaves() =~= tree.leaves().insert(
                at + 1,
                pane,
            ));
        },
        PaneTree::Split { first, second, .. } => {
            lemma_leaves(*first);
            lemma_leaves(*second);
            let head = first.leaves();
            let tail = second.leaves();
            let n = head.len() as int;
            if at < n {
                assert(tree.leaves()[at] == head[at]);
                assert(!second.pane_ids().contains(target));
                lemma_split_leaves(*first, target, direction, pane, at);
                lemma_split_unchanged(*second, target, direction, pane);
                assert(tree.with_split(target, direction, pane).leaves() =~= tree.leaves().insert(
                    at + 1,
                    pane,
                ));
            } else {
                assert(tree.leaves()[at] == tail[at - n]);
                assert(!first.pane_ids().contains(target));
                lemma_split_leaves(*second, target, direction, pane, at - n);
                lemma_split_unchanged(*first, target, direction, pane);
                assert(tree.with_split(target, direction, pane).leaves() =~= tree.leaves().insert(
                    at + 1,
                    pane,
                ));
            }
        },
    }
}

/// Splitting a pane that the tree does not have changes nothing.
pub proof fn lemma_split_unchanged(
    tree: PaneTree,
    target: PaneId,
    direction: SplitDirection,
    pane: Pane,
)
    requires
        !tree.pane_ids().contains(target),
    ensures
        tree.with_split(target, direction, pane) == tree,
    decreases tree,
{
    match tree {
        PaneTree::Leaf(_) => {},
        PaneTree::Split { first, second, .. } => {
            lemma_split_unchanged(*first, target, direction, pane);
            lemma_split_unchanged(*second, target, direction, pane);
        },
    }
}

/// Changing the settings of a pane changes that leaf and no other.
pub proof fn lemma_with_pane_leaves(tree: PaneTree, pane: Pane, at: int)
    requires
        tree.wf(),
        0 <= at < tree.leaves().len(),
        tree.leaves()[at].id == pane.id,
    ensures
        tree.with_pane(pane).leaves() == tree.leaves().update(at, pane),
    decreases tree,
{
    match tree {
        PaneTree::Leaf(_) => {
            assert(tree.with_pane(pane).leaves() =~= tree.leaves().update(at, pane));
        },
        PaneTree::Split { first, second, .. } => {
            lemma_leaves(*first);
            lemma_leaves(*second);
            lemma_with_pane(*first, pane);
            lemma_with_pane(*second, pane);
            let head = first.leaves();
            let tail = second.leaves();
            let n = head.len() as int;
            if at < n {
                assert(tree.leaves()[at] == head[at]);
                lemma_with_pane_leaves(*first, pane, at);
            } else {
                assert(tree.leaves()[at] == tail[at - n]);
                lemma_with_pane_leaves(*second, pane, at - n);
            }
            assert(tree.with_pane(pane).leaves() =~= tree.leaves().update(at, pane));
        },
    }
}

} // verus!
