//! Which pane the focus moves to, and which pane makes room for a new one.

use crate::geometry::Rect;
use crate::layout::{Pane, PlacedPane};
use crate::panes::PaneId;
use vstd::prelude::*;

verus! {

/// A side of a pane.
#[derive(Clone, Copy, Debug, PartialEq, Eq, Structural)]
pub enum Side {
    Left,
    Right,
    Up,
    Down,
}

/// The place of the pane `id` among `panes`.
pub open spec fn index_of_pane(panes: Seq<Pane>, id: PaneId) -> int {
    choose|i: int| 0 <= i < panes.len() && (#[trigger] panes[i]).id == id
}

/// The place `offset` steps after `from` among `count` places in a ring.
pub open spec fn ring_index(from: int, offset: int, count: int) -> int {
    if from + offset < count {
        from + offset
    } else {
        from + offset - count
    }
}

/// The place of the first selectable pane that is `offset` or more steps
/// after `from`, going round; `from` where no pane but the one at `from`
/// qualifies.
pub open spec fn next_selectable(panes: Seq<Pane>, from: int, offset: int) -> int
    decreases panes.len() - offset,
{
    if offset < 1 || offset >= panes.len() {
        from
    } else if panes[ring_index(from, offset, panes.len() as int)].settings.selectable {
        ring_index(from, offset, panes.len() as int)
    } else {
        next_selectable(panes, from, offset + 1)
    }
}

/// Whether the two rectangles have a row in common.
pub open spec fn share_rows(a: Rect, b: Rect) -> bool {
    a.y < b.y + b.rows && b.y < a.y + a.rows
}

/// Whether the two rectangles have a column in common.
pub open spec fn share_columns(a: Rect, b: Rect) -> bool {
    a.x < b.x + b.cols && b.x < a.x + a.cols
}

/// How many cells lie between `from` and `to`, where `to` lies wholly on the
/// given side of `from` and level with it; `None` where it does not.
pub open spec fn gap(from: Rect, to: Rect, side: Side) -> Option<int> {
    match side {
        Side::Left => if to.x + to.cols <= from.x && share_rows(from, to) {
            Some(from.x - (to.x + to.cols))
        } else {
            None
        },
        Side::Right => if from.x + from.cols <= to.x && share_rows(from, to) {
            Some(to.x - (from.x + from.cols))
        } else {
            None
        },
        Side::Up => if to.y + to.rows <= from.y && share_columns(from, to) {
            Some(from.y - (to.y + to.rows))
        } else {
            None
        },
        Side::Down => if from.y + from.rows <= to.y && share_columns(from, to) {
            Some(to.y - (from.y + from.rows))
        } else {
            None
        },
    }
}

/// Whether the focus may move from the pane at `from` to the pane at `to` on
/// the given side.
pub open spec fn reachable(placed: Seq<PlacedPane>, from: int, to: int, side: Side) -> bool {
    &&& 0 <= to < placed.len()
    &&& to != from
    &&& placed[to].pane.settings.selectable
    &&& gap(placed[from].area, placed[to].area, side) is Some
}

/// Among the first `count` panes, the nearest that the focus may move to from
/// the pane at `from`, the earliest of those equally near.
pub open spec fn nearest(placed: Seq<PlacedPane>, from: int, side: Side, count: int) -> Option<int>
    decreases count,
{
    if count <= 0 {
        None
    } else {
        let before = nearest(placed, from, side, count - 1);
        let last = count - 1;
        if reachable(placed, from, last, side) && (before matches Some(b) ==> gap(
            placed[from].area,
            placed[last].area,
            side,
        ).unwrap() < gap(placed[from].area, placed[b].area, side).unwrap()) {
            Some(last)
        } else {
            before
        }
    }
}

/// Among the first `count` panes, the one with the most cells, the earliest
/// of those equally large.
pub open spec fn largest(placed: Seq<PlacedPane>, count: int) -> int
    decreases count,
{
    if count <= 1 {
        0
    } else {
        let before = largest(placed, count - 1);
        let last = count - 1;
        if placed[last].area.cols * placed[last].area.rows > placed[before].area.cols
            * placed[before].area.rows {
            last
        } else {
            before
        }
    }
}

/// Whether every pane has a cell within its frame.
pub open spec fn all_have_room(placed: Seq<PlacedPane>) -> bool {
    forall|i: int| 0 <= i < placed.len() ==> (#[trigger] placed[i]).has_room()
}

/// What `nearest` finds is reachable, and nothing reachable is nearer, nor
/// equally near and earlier.
pub proof fn lemma_nearest(placed: Seq<PlacedPane>, from: int, side: Side, count: int)
    requires
        0 <= count <= placed.len(),
    ensures
        nearest(placed, from, side, count) matches Some(found) ==> {
            &&& found < count
            &&& reachable(placed, from, found, side)
            &&& forall|j: int|
                0 <= j < count && #[trigger] reachable(placed, from, j, side) ==> {
                    let here = gap(placed[from].area, placed[found].area, side).unwrap();
                    let there = gap(placed[from].area, placed[j].area, side).unwrap();
                    here < there || (here == there && found <= j)
                }
        },
        nearest(placed, from, side, count) is None ==> forall|j: int|
            0 <= j < count ==> !#[trigger] reachable(placed, from, j, side),
    decreases count,
{
    if count > 0 {
        lemma_nearest(placed, from, side, count - 1);
    }
}

/// What `largest` finds has at least as many cells as any pane, and more
/// than any pane before it.
pub proof fn lemma_largest(placed: Seq<PlacedPane>, count: int)
    requires
        1 <= count <= placed.len(),
    ensures
        0 <= largest(placed, count) < count,
        forall|j: int|
            0 <= j < count ==> (#[trigger] placed[j]).area.cols * placed[j].area.rows <= placed[largest(
                placed,
                count,
            )].area.cols * placed[largest(placed, count)].area.rows,
        forall|j: int|
            0 <= j < largest(placed, count) ==> (#[trigger] placed[j]).area.cols
                * placed[j].area.rows < placed[largest(placed, count)].area.cols * placed[largest(
                placed,
                count,
            )].area.rows,
    decreases count,
{
    if count > 1 {
        lemma_largest(placed, count - 1);
    }
}

/// What `next_selectable` finds is a place among the panes; it is `from`
/// itself or the place of a selectable pane.
pub proof fn lemma_next_selectable(panes: Seq<Pane>, from: int, offset: int)
    requires
        0 <= from < panes.len(),
        1 <= offset,
    ensures
        0 <= next_selectable(panes, from, offset) < panes.len(),
        next_selectable(panes, from, offset) == from || panes[next_selectable(
            panes,
            from,
            offset,
        )].settings.selectable,
    decreases panes.len() - offset,
{
    if offset < panes.len() && !panes[ring_index(
        from,
        offset,
        panes.len() as int,
    )].settings.selectable {
        lemma_next_selectable(panes, from, offset + 1);
    }
}

/// Finds the pane `id` among `panes`.
pub fn find_pane(panes: &Vec<Pane>, id: PaneId) -> (r: Option<usize>)
    ensures
        r matches Some(i) ==> i < panes.len() && panes[i as int].id == id && forall|k: int|
            0 <= k < i ==> (#[trigger] panes[k]).id != id,
        r is None ==> forall|i: int| 0 <= i < panes.len() ==> (#[trigger] panes[i]).id != id,
{
    let mut i: usize = 0;
    while i < panes.len()
        invariant
            0 <= i <= panes.len(),
            forall|k: int| 0 <= k < i ==> (#[trigger] panes[k]).id != id,
        decreases panes.len() - i,
    {
        if panes[i].id == id {
            return Some(i);
        }
        i += 1;
    }
    None
}

/// Finds the next selectable pane after the one at `from`, going round.
pub fn next_selectable_index(panes: &Vec<Pane>, from: usize) -> (r: usize)
    requires
        from < panes.len(),
    ensures
        r == next_selectable(panes@, from as int, 1),
        r < panes.len(),
{
    let count = panes.len();
    let mut offset: usize = 1;
    proof {
        lemma_next_selectable(panes@, from as int, 1);
    }
    while offset < count
        invariant
            1 <= offset <= count,
            count == panes.len(),
            from < count,
            next_selectable(panes@, from as int, offset as int) == next_selectable(
                panes@,
                from as int,
                1,
            ),
        decreases count - offset,
    {
        let i: usize = if offset < count - from {
            from + offset
        } else {
            offset - (count - from)
        };
        assert(i == ring_index(from as int, offset as int, count as int));
        if panes[i].settings.selectable {
            return i;
        }
        offset += 1;
    }
    from
}

/// Measures the gap between `from` and `to` on the given side.
pub fn measure_gap(from: &Rect, to: &Rect, side: Side) -> (r: Option<u32>)
    ensures
        r matches Some(cells) ==> gap(*from, *to, side) == Some(cells as int),
        r is None ==> gap(*from, *to, side) is None,
{
    let from_x: u32 = from.x as u32;
    let from_y: u32 = from.y as u32;
    let from_right: u32 = from.x as u32 + from.cols as u32;
    let from_bottom: u32 = from.y as u32 + from.rows as u32;
    let to_x: u32 = to.x as u32;
    let to_y: u32 = to.y as u32;
    let to_right: u32 = to.x as u32 + to.cols as u32;
    let to_bottom: u32 = to.y as u32 + to.rows as u32;
    let level_rows = from_y < to_bottom && to_y < from_bottom;
    let level_columns = from_x < to_right && to_x < from_right;
    match side {
        Side::Left => if to_right <= from_x && level_rows {
            Some(from_x - to_right)
        } else {
            None
        },
        Side::Right => if from_right <= to_x && level_rows {
            Some(to_x - from_right)
        } else {
            None
        },
        Side::Up => if to_bottom <= from_y && level_columns {
            Some(from_y - to_bottom)
        } else {
            None
        },
        Side::Down => if from_bottom <= to_y && level_columns {
            Some(to_y - from_bottom)
        } else {
            None
        },
    }
}

/// Finds the nearest pane that the focus may move to from the pane at
/// `from` on the given side.
pub fn nearest_index(placed: &Vec<PlacedPane>, from: usize, side: Side) -> (r: Option<usize>)
    requires
        from < placed.len(),
    ensures
        r matches Some(i) ==> nearest(placed@, from as int, side, placed.len() as int) == Some(
            i as int,
        ) && i < placed.len(),
        r is None ==> nearest(placed@, from as int, side, placed.len() as int) is None,
{
    let origin = placed[from].area;
    let mut best: Option<usize> = None;
    let mut best_gap: u32 = 0;
    let mut i: usize = 0;
    while i < placed.len()
        invariant
            0 <= i <= placed.len(),
            from < placed.len(),
            origin == placed[from as int].area,
            best matches Some(b) ==> nearest(placed@, from as int, side, i as int) == Some(
                b as int,
            ) && b < i && gap(origin, placed[b as int].area, side) == Some(best_gap as int),
            best is None ==> nearest(placed@, from as int, side, i as int) is None,
        decreases placed.len() - i,
    {
        let candidate = &placed[i];
        if i != from && candidate.pane.settings.selectable {
            match measure_gap(&origin, &candidate.area, side) {
                Some(cells) => {
                    let closer = match best {
                        Some(_) => cells < best_gap,
                        None => true,
                    };
                    if closer {
                        best = Some(i);
                        best_gap = cells;
                    }
                },
                None => {},
            }
        }
        i += 1;
    }
    best
}

/// Finds the pane with the most cells.
pub fn largest_index(placed: &Vec<PlacedPane>) -> (r: usize)
    requires
        placed.len() >= 1,
    ensures
        r == largest(placed@, placed.len() as int),
        r < placed.len(),
{
    let mut best: usize = 0;
    let mut i: usize = 1;
    while i < placed.len()
        invariant
            1 <= i <= placed.len(),
            best < i,
            best == largest(placed@, i as int),
        decreases placed.len() - i,
    {
        if placed[i].area.cells() > placed[best].area.cells() {
            best = i;
        }
        i += 1;
    }
    best
}

/// Whether every pane has a cell within its frame.
pub fn every_pane_has_room(placed: &Vec<PlacedPane>) -> (r: bool)
    ensures
        r == all_have_room(placed@),
{
    let mut i: usize = 0;
    while i < placed.len()
        invariant
            0 <= i <= placed.len(),
            forall|k: int| 0 <= k < i ==> (#[trigger] placed[k]).has_room(),
        decreases placed.len() - i,
    {
        if !placed[i].is_roomy() {
            return false;
        }
        i += 1;
    }
    true
}

} // verus!
