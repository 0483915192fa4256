//! The tiling of a tab: a binary tree whose leaves are the panes and whose
//! inner nodes say how the space of their two subtrees is divided.

use crate::geometry::{Rect, SplitDirection, RATIO_HALF, RATIO_ONE};
use crate::panes::PaneId;
use vstd::prelude::*;

verus! {

/// What can be set for a pane.
#[derive(Clone, Copy, Debug, PartialEq, Eq)]
pub struct PaneSettings {
    /// Whether the focus may rest on the pane.
    pub selectable: bool,
    /// The number of rows the pane asks not to exceed.
    pub max_height: Option<usize>,
    /// Whether the pane is drawn without a frame.
    pub invisible_borders: bool,
}

/// An open pane.
#[derive(Clone, Copy, Debug, PartialEq, Eq)]
pub struct Pane {
    pub id: PaneId,
    pub settings: PaneSettings,
}

/// A pane together with the cells it occupies.
#[derive(Clone, Copy, Debug, PartialEq, Eq)]
pub struct PlacedPane {
    pub pane: Pane,
    pub area: Rect,
}

/// The tiling of a tab.
#[derive(Debug, PartialEq, Eq)]
pub enum PaneTree {
    Leaf(Pane),
    Split { direction: SplitDirection, ratio: u16, first: Box<PaneTree>, second: Box<PaneTree> },
}

/// The plan of a tab: a tiling whose panes are not open yet.
#[derive(Debug, PartialEq, Eq)]
pub enum Layout {
    Pane(PaneSettings),
    Split { direction: SplitDirection, ratio: u16, first: Box<Layout>, second: Box<Layout> },
}

/// Where the nearest split of a given direction around a pane is.
#[derive(Clone, Copy, Debug, PartialEq, Eq)]
pub enum Enclosing {
    /// The pane is not in the tree.
    Absent,
    /// The pane is in the tree, under no split of that direction.
    Unsplit,
    /// The ratio of the nearest split of that direction above the pane.
    Ratio(u16),
}

impl PaneSettings {
    /// The settings of a pane that nobody has changed: selectable, of any
    /// height, framed.
    pub fn new() -> (r: Self)
        ensures
            r == Self::initial(),
    {
        PaneSettings { selectable: true, max_height: None, invisible_borders: false }
    }

    pub open spec fn initial() -> Self {
        PaneSettings { selectable: true, max_height: None, invisible_borders: false }
    }
}

impl Pane {
    /// A pane with unchanged settings.
    pub fn new(id: PaneId) -> (r: Self)
        ensures
            r == Self::fresh(id),
    {
        Pane { id, settings: PaneSettings::new() }
    }

    pub open spec fn fresh(id: PaneId) -> Self {
        Pane { id, settings: PaneSettings::initial() }
    }
}

impl PlacedPane {
    /// The cells of the pane within its frame: all its cells where it is
    /// drawn without one, none where it is too small for a frame or starts
    /// in the last column or row that there can be.
    pub open spec fn inside(self) -> Rect {
        if self.pane.settings.invisible_borders {
            self.area
        } else if self.area.cols >= 2 && self.area.rows >= 2 && self.area.x < u16::MAX
            && self.area.y < u16::MAX {
            Rect {
                x: (self.area.x + 1) as u16,
                y: (self.area.y + 1) as u16,
                cols: (self.area.cols - 2) as u16,
                rows: (self.area.rows - 2) as u16,
            }
        } else {
            Rect { x: self.area.x, y: self.area.y, cols: 0, rows: 0 }
        }
    }

    /// Whether the pane has a cell within its frame.
    pub open spec fn has_room(self) -> bool {
        !self.inside().is_empty()
    }

    /// The cells of the pane within its frame.
    pub fn content_area(&self) -> (r: Rect)
        ensures
            r == self.inside(),
    {
        if self.pane.settings.invisible_borders {
            self.area
        } else if self.area.cols >= 2 && self.area.rows >= 2 && self.area.x < 0xffff
            && self.area.y < 0xffff {
            Rect {
                x: self.area.x + 1,
                y: self.area.y + 1,
                cols: self.area.cols - 2,
                rows: self.area.rows - 2,
            }
        } else {
            Rect { x: self.area.x, y: self.area.y, cols: 0, rows: 0 }
        }
    }

    /// Whether the pane has a cell within its frame.
    pub fn is_roomy(&self) -> (r: bool)
        ensures
            r == self.has_room(),
    {
        if self.pane.settings.invisible_borders {
            self.area.cols >= 1 && self.area.rows >= 1
        } else {
            self.area.cols >= 3 && self.area.rows >= 3 && self.area.x < 0xffff && self.area.y
                < 0xffff
        }
    }
}

impl PaneTree {
    /// The ids of the panes in the tree.
    pub open spec fn pane_ids(self) -> Set<PaneId>
        decreases self,
    {
        match self {
            PaneTree::Leaf(pane) => set![pane.id],
            PaneTree::Split { first, second, .. } => first.pane_ids().union(second.pane_ids()),
        }
    }

    /// The panes of the tree, first parts before second parts.
    pub open spec fn leaves(self) -> Seq<Pane>
        decreases self,
    {
        match self {
            PaneTree::Leaf(pane) => seq![pane],
            PaneTree::Split { first, second, .. } => first.leaves() + second.leaves(),
        }
    }

    /// Every ratio is at most one, and no id names two panes.
    pub open spec fn wf(self) -> bool
        decreases self,
    {
        match self {
            PaneTree::Leaf(_) => true,
            PaneTree::Split { ratio, first, second, .. } => {
                &&& ratio <= RATIO_ONE
                &&& first.wf()
                &&& second.wf()
                &&& first.pane_ids().disjoint(second.pane_ids())
            },
        }
    }

    /// The panes with their cells when the tree fills `area`.
    pub open spec fn placed(self, area: Rect) -> Seq<PlacedPane>
        decreases self,
    {
        match self {
            PaneTree::Leaf(pane) => seq![PlacedPane { pane, area }],
            PaneTree::Split { direction, ratio, first, second } => first.placed(
                area.first_part(direction, ratio),
            ) + second.placed(area.second_part(direction, ratio)),
        }
    }

    /// The tree in which the pane `target` has made room for `pane`: the two
    /// share the space of `target` in equal parts, `target` first.
    pub open spec fn with_split(self, target: PaneId, direction: SplitDirection, pane: Pane) -> PaneTree
        decreases self,
    {
        match self {
            PaneTree::Leaf(old) => if old.id == target {
                PaneTree::Split {
                    direction,
                    ratio: RATIO_HALF,
                    first: Box::new(PaneTree::Leaf(old)),
                    second: Box::new(PaneTree::Leaf(pane)),
                }
            } else {
                self
            },
            PaneTree::Split { direction: d, ratio, first, second } => PaneTree::Split {
                direction: d,
                ratio,
                first: Box::new(first.with_split(target, direction, pane)),
                second: Box::new(second.with_split(target, direction, pane)),
            },
        }
    }

    /// The tree without the pane `id`: the split above the pane gives way to
    /// the pane's sibling. `None` when nothing is left.
    pub open spec fn without(self, id: PaneId) -> Option<PaneTree>
        decreases self,
    {
        match self {
            PaneTree::Leaf(pane) => if pane.id == id {
                None
            } else {
                Some(self)
            },
            PaneTree::Split { direction, ratio, first, second } => match (
                first.without(id),
                second.without(id),
            ) {
                (Some(f), Some(s)) => Some(
                    PaneTree::Split { direction, ratio, first: Box::new(f), second: Box::new(s) },
                ),
                (Some(f), None) => Some(f),
                (None, Some(s)) => Some(s),
                (None, None) => None,
            },
        }
    }

    /// The tree in which `pane` stands for the pane of the same id.
    pub open spec fn with_pane(self, pane: Pane) -> PaneTree
        decreases self,
    {
        match self {
            PaneTree::Leaf(old) => if old.id == pane.id {
                PaneTree::Leaf(pane)
            } else {
                self
            },
            PaneTree::Split { direction, ratio, first, second } => PaneTree::Split {
                direction,
                ratio,
                first: Box::new(first.with_pane(pane)),
                second: Box::new(second.with_pane(pane)),
            },
        }
    }

    /// The pane named `id`, if the tree has it.
    pub open spec fn find(self, id: PaneId) -> Option<Pane>
        decreases self,
    {
        match self {
            PaneTree::Leaf(pane) => if pane.id == id {
                Some(pane)
            } else {
                None
            },
            PaneTree::Split { first, second, .. } => match first.find(id) {
                Some(pane) => Some(pane),
                None => second.find(id),
            },
        }
    }

    /// The nearest split of `direction` above the pane `target`.
    pub open spec fn enclosing(self, target: PaneId, direction: SplitDirection) -> Enclosing
        decreases self,
    {
        match self {
            PaneTree::Leaf(pane) => if pane.id == target {
                Enclosing::Unsplit
            } else {
                Enclosing::Absent
            },
            PaneTree::Split { direction: d, ratio, first, second } => {
                let inner = match first.enclosing(target, direction) {
                    Enclosing::Absent => second.enclosing(target, direction),
                    found => found,
                };
                match inner {
                    Enclosing::Unsplit => if d == direction {
                        Enclosing::Ratio(ratio)
                    } else {
                        Enclosing::Unsplit
                    },
                    other => other,
                }
            },
        }
    }

    /// The tree in which the nearest split of `direction` above the pane
    /// `target` divides at `ratio`.
    pub open spec fn with_ratio(self, target: PaneId, direction: SplitDirection, ratio: u16) -> PaneTree
        decreases self,
    {
        match self {
            PaneTree::Leaf(_) => self,
            PaneTree::Split { direction: d, ratio: r, first, second } => {
                let inner = match first.enclosing(target, direction) {
                    Enclosing::Absent => second.enclosing(target, direction),
                    found => found,
                };
                match inner {
                    Enclosing::Absent => self,
                    Enclosing::Unsplit => if d == direction {
                        PaneTree::Split { direction: d, ratio, first, second }
                    } else {
                        self
                    },
                    Enclosing::Ratio(_) => PaneTree::Split {
                        direction: d,
                        ratio: r,
                        first: Box::new(first.with_ratio(target, direction, ratio)),
                        second: Box::new(second.with_ratio(target, direction, ratio)),
                    },
                }
            },
        }
    }

    /// A tree of one pane.
    pub fn single(pane: Pane) -> (r: PaneTree)
        ensures
            r == PaneTree::Leaf(pane),
            r.wf(),
    {
        PaneTree::Leaf(pane)
    }

    /// A copy of the tree.
    pub fn duplicate(&self) -> (r: PaneTree)
        ensures
            r == *self,
        decreases *self,
    {
        match self {
            PaneTree::Leaf(pane) => PaneTree::Leaf(*pane),
            PaneTree::Split { direction, ratio, first, second } => PaneTree::Split {
                direction: *direction,
                ratio: *ratio,
                first: Box::new(first.duplicate()),
                second: Box::new(second.duplicate()),
            },
        }
    }

    /// Whether the tree has a pane named `id`.
    pub fn contains(&self, id: PaneId) -> (r: bool)
        ensures
            r == self.pane_ids().contains(id),
        decreases *self,
    {
        match self {
            PaneTree::Leaf(pane) => pane.id == id,
            PaneTree::Split { first, second, .. } => first.contains(id) || second.contains(id),
        }
    }

    /// The pane named `id`.
    pub fn get(&self, id: PaneId) -> (r: Option<Pane>)
        ensures
            r == self.find(id),
        decreases *self,
    {
        match self {
            PaneTree::Leaf(pane) => if pane.id == id {
                Some(*pane)
            } else {
                None
            },
            PaneTree::Split { first, second, .. } => match first.get(id) {
                Some(pane) => Some(pane),
                None => second.get(id),
            },
        }
    }

    /// Appends the panes of the tree to `out`, in order.
    pub fn collect_panes(&self, out: &mut Vec<Pane>)
        ensures
            final(out)@ == old(out)@ + self.leaves(),
        decreases *self,
    {
        match self {
            PaneTree::Leaf(pane) => {
                out.push(*pane);
                assert(out@ =~= old(out)@ + self.leaves());
            },
            PaneTree::Split { first, second, .. } => {
                first.collect_panes(out);
                second.collect_panes(out);
                assert(out@ =~= old(out)@ + self.leaves());
            },
        }
    }

    /// The panes of the tree, in order.
    pub fn panes(&self) -> (r: Vec<Pane>)
        ensures
            r@ == self.leaves(),
    {
        let mut out: Vec<Pane> = Vec::new();
        self.collect_panes(&mut out);
        assert(out@ =~= self.leaves());
        out
    }

    /// Appends the panes of the tree, each with its cells within `area`, to
    /// `out`, in order.
    pub fn place_into(&self, area: Rect, out: &mut Vec<PlacedPane>)
        requires
            self.wf(),
            area.fits(),
        ensures
            final(out)@ == old(out)@ + self.placed(area),
        decreases *self,
    {
        match self {
            PaneTree::Leaf(pane) => {
                out.push(PlacedPane { pane: *pane, area });
                assert(out@ =~= old(out)@ + self.placed(area));
            },
            PaneTree::Split { direction, ratio, first, second } => {
                proof {
                    crate::geometry::lemma_parts_tile(area, *direction, *ratio);
                }
                let parts = area.divide(*direction, *ratio);
                first.place_into(parts.0, out);
                second.place_into(parts.1, out);
                assert(out@ =~= old(out)@ + self.placed(area));
            },
        }
    }

    /// The panes of the tree with their cells when the tree fills `area`.
    pub fn place(&self, area: Rect) -> (r: Vec<PlacedPane>)
        requires
            self.wf(),
            area.fits(),
        ensures
            r@ == self.placed(area),
    {
        let mut out: Vec<PlacedPane> = Vec::new();
        self.place_into(area, &mut out);
        assert(out@ =~= self.placed(area));
        out
    }

    /// Divides the space of the pane `target` between it and `pane`.
    pub fn split(&self, target: PaneId, direction: SplitDirection, pane: Pane) -> (r: PaneTree)
        ensures
            r == self.with_split(target, direction, pane),
        decreases *self,
    {
        match self {
            PaneTree::Leaf(old) => if old.id == target {
                PaneTree::Split {
                    direction,
                    ratio: RATIO_HALF,
                    first: Box::new(PaneTree::Leaf(*old)),
                    second: Box::new(PaneTree::Leaf(pane)),
                }
            } else {
                PaneTree::Leaf(*old)
            },
            PaneTree::Split { direction: d, ratio, first, second } => PaneTree::Split {
                direction: *d,
                ratio: *ratio,
                first: Box::new(first.split(target, direction, pane)),
                second: Box::new(second.split(target, direction, pane)),
            },
        }
    }

    /// Takes the pane `id` out of the tree.
    pub fn remove(&self, id: PaneId) -> (r: Option<PaneTree>)
        ensures
            r == self.without(id),
        decreases *self,
    {
        match self {
            PaneTree::Leaf(pane) => if pane.id == id {
                None
            } else {
                Some(PaneTree::Leaf(*pane))
            },
            PaneTree::Split { direction, ratio, first, second } => {
                let f = first.remove(id);
                let s = second.remove(id);
                match (f, s) {
                    (Some(f), Some(s)) => Some(
                        PaneTree::Split {
                            direction: *direction,
                            ratio: *ratio,
                            first: Box::new(f),
                            second: Box::new(s),
                        },
                    ),
                    (Some(f), None) => Some(f),
                    (None, Some(s)) => Some(s),
                    (None, None) => None,
                }
            },
        }
    }

    /// Puts `pane` in the place of the pane of the same id.
    pub fn replace(&self, pane: Pane) -> (r: PaneTree)
        ensures
            r == self.with_pane(pane),
        decreases *self,
    {
        match self {
            PaneTree::Leaf(old) => if old.id == pane.id {
                PaneTree::Leaf(pane)
            } else {
                PaneTree::Leaf(*old)
            },
            PaneTree::Split { direction, ratio, first, second } => PaneTree::Split {
                direction: *direction,
                ratio: *ratio,
                first: Box::new(first.replace(pane)),
                second: Box::new(second.replace(pane)),
            },
        }
    }

    /// Finds the nearest split of `direction` above the pane `target`.
    pub fn nearest_split(&self, target: PaneId, direction: SplitDirection) -> (r: Enclosing)
        ensures
            r == self.enclosing(target, direction),
        decreases *self,
    {
        match self {
            PaneTree::Leaf(pane) => if pane.id == target {
                Enclosing::Unsplit
            } else {
                Enclosing::Absent
            },
            PaneTree::Split { direction: d, ratio, first, second } => {
                let inner = match first.nearest_split(target, direction) {
                    Enclosing::Absent => second.nearest_split(target, direction),
                    found => found,
                };
                match inner {
                    Enclosing::Unsplit => if *d == direction {
                        Enclosing::Ratio(*ratio)
                    } else {
                        Enclosing::Unsplit
                    },
                    other => other,
                }
            },
        }
    }

    /// Sets the ratio of the nearest split of `direction` above the pane
    /// `target`.
    pub fn set_ratio(&self, target: PaneId, direction: SplitDirection, ratio: u16) -> (r: PaneTree)
        ensures
            r == self.with_ratio(target, direction, ratio),
        decreases *self,
    {
        match self {
            PaneTree::Leaf(pane) => PaneTree::Leaf(*pane),
            PaneTree::Split { direction: d, ratio: r, first, second } => {
                let inner = match first.nearest_split(target, direction) {
                    Enclosing::Absent => second.nearest_split(target, direction),
                    found => found,
                };
                match inner {
                    Enclosing::Absent => self.duplicate(),
                    Enclosing::Unsplit => if *d == direction {
                        PaneTree::Split {
                            direction: *d,
                            ratio,
                            first: Box::new(first.duplicate()),
                            second: Box::new(second.duplicate()),
                        }
                    } else {
                        self.duplicate()
                    },
                    Enclosing::Ratio(_) => PaneTree::Split {
                        direction: *d,
                        ratio: *r,
                        first: Box::new(first.set_ratio(target, direction, ratio)),
                        second: Box::new(second.set_ratio(target, direction, ratio)),
                    },
                }
            },
        }
    }
}

impl Layout {
    /// How many panes the plan asks for.
    pub open spec fn leaf_count(self) -> nat
        decreases self,
    {
        match self {
            Layout::Pane(_) => 1,
            Layout::Split { first, second, .. } => first.leaf_count() + second.leaf_count(),
        }
    }

    /// Every ratio is at most one.
    pub open spec fn wf(self) -> bool
        decreases self,
    {
        match self {
            Layout::Pane(_) => true,
            Layout::Split { ratio, first, second, .. } => ratio <= RATIO_ONE && first.wf()
                && second.wf(),
        }
    }

    /// The tiling that the plan gives when its panes are opened under `ids`,
    /// in order.
    pub open spec fn populated(self, ids: Seq<PaneId>) -> PaneTree
        decreases self,
    {
        match self {
            Layout::Pane(settings) => PaneTree::Leaf(Pane { id: ids[0], settings }),
            Layout::Split { direction, ratio, first, second } => PaneTree::Split {
                direction,
                ratio,
                first: Box::new(first.populated(ids.take(first.leaf_count() as int))),
                second: Box::new(second.populated(ids.skip(first.leaf_count() as int))),
            },
        }
    }

    /// The plan that every tab follows unless another is asked for: one pane.
    pub fn single() -> (r: Layout)
        ensures
            r == Layout::Pane(PaneSettings::initial()),
            r.wf(),
            r.leaf_count() == 1,
    {
        Layout::Pane(PaneSettings::new())
    }

    /// A copy of the plan.
    pub fn duplicate(&self) -> (r: Layout)
        ensures
            r == *self,
        decreases *self,
    {
        match self {
            Layout::Pane(settings) => Layout::Pane(*settings),
            Layout::Split { direction, ratio, first, second } => Layout::Split {
                direction: *direction,
                ratio: *ratio,
                first: Box::new(first.duplicate()),
                second: Box::new(second.duplicate()),
            },
        }
    }

    /// Whether every ratio of the plan is at most one.
    pub fn is_valid(&self) -> (r: bool)
        ensures
            r == self.wf(),
        decreases *self,
    {
        match self {
            Layout::Pane(_) => true,
            Layout::Split { ratio, first, second, .. } => *ratio <= RATIO_ONE && first.is_valid()
                && second.is_valid(),
        }
    }

    /// The number of panes of the plan, unless it is more than `limit`.
    pub fn count_within(&self, limit: usize) -> (r: Option<usize>)
        ensures
            r matches Some(n) ==> n == self.leaf_count() && n <= limit,
            r is None ==> self.leaf_count() > limit,
        decreases *self,
    {
        match self {
            Layout::Pane(_) => if limit >= 1 {
                Some(1)
            } else {
                None
            },
            Layout::Split { first, second, .. } => match first.count_within(limit) {
                None => None,
                Some(head) => match second.count_within(limit - head) {
                    None => None,
                    Some(tail) => Some(head + tail),
                },
            },
        }
    }

    /// Opens the first panes of the plan under the ids that start at `start`,
    /// and says where the ids that are left start.
    pub fn populate_from(&self, ids: &Vec<PaneId>, start: usize) -> (r: (PaneTree, usize))
        requires
            start + self.leaf_count() <= ids.len(),
        ensures
            r.1 == start + self.leaf_count(),
            r.0 == self.populated(ids@.subrange(start as int, r.1 as int)),
        decreases *self,
    {
        match self {
            Layout::Pane(settings) => {
                (PaneTree::Leaf(Pane { id: ids[start], settings: *settings }), start + 1)
            },
            Layout::Split { direction, ratio, first, second } => {
                let (head, middle) = first.populate_from(ids, start);
                let (tail, end) = second.populate_from(ids, middle);
                proof {
                    let all = ids@.subrange(start as int, end as int);
                    let n = first.leaf_count() as int;
                    assert(all.take(n) =~= ids@.subrange(start as int, middle as int));
                    assert(all.skip(n) =~= ids@.subrange(middle as int, end as int));
                }
                (
                    PaneTree::Split {
                        direction: *direction,
                        ratio: *ratio,
                        first: Box::new(head),
                        second: Box::new(tail),
                    },
                    end,
                )
            },
        }
    }

    /// Opens the panes of the plan under `ids`, in order.
    pub fn populate(&self, ids: &Vec<PaneId>) -> (r: PaneTree)
        requires
            ids.len() == self.leaf_count(),
        ensures
            r == self.populated(ids@),
    {
        let (tree, end) = self.populate_from(ids, 0);
        assert(ids@.subrange(0, end as int) =~= ids@);
        tree
    }
}

impl Clone for PaneTree {
    fn clone(&self) -> (r: Self)
        ensures
            r == *self,
    {
        self.duplicate()
    }
}

impl Clone for Layout {
    fn clone(&self) -> (r: Self)
        ensures
            r == *self,
    {
        self.duplicate()
    }
}

} // verus!
