//! A tab: a tiling of panes, one of which has the focus.

use crate::focus::{
    all_have_room, every_pane_has_room, find_pane, index_of_pane, largest, largest_index, nearest,
    nearest_index, next_selectable, next_selectable_index, Side,
};
use crate::geometry::{Rect, SplitDirection, RATIO_ONE};
use crate::layout::{Enclosing, Layout, Pane, PaneSettings, PaneTree, PlacedPane};
use crate::panes::PaneId;
use crate::tiling::{
    lemma_enclosing, lemma_index_of_pane, lemma_leaves, lemma_leaves_distinct, lemma_placed_leaves,
    lemma_populated, lemma_split, lemma_with_pane, lemma_tree_tiles, lemma_with_pane_leaves,
    lemma_with_ratio, lemma_without, lemma_without_leaves, tiles,
};
use vstd::prelude::*;

verus! {

/// How far, in thousandths of the divided space, one resize moves a divider.
pub const RESIZE_STEP: u16 = 50;

/// A tab.
#[derive(Debug, PartialEq, Eq)]
pub struct Tab {
    /// How the panes share the space of the tab.
    pub tree: PaneTree,
    /// The pane that takes the input.
    pub focus: PaneId,
    /// Whether the focused pane alone is shown, on all of the space.
    pub fullscreen: bool,
}

/// The direction of the splits whose divider a resize towards `side` moves.
pub open spec fn divider_direction(side: Side) -> SplitDirection {
    match side {
        Side::Left | Side::Right => SplitDirection::Vertical,
        Side::Up | Side::Down => SplitDirection::Horizontal,
    }
}

/// Whether a resize towards `side` gives the first part of a split more.
pub open spec fn grows_first(side: Side) -> bool {
    side == Side::Right || side == Side::Down
}

/// The direction in which a pane of the given cells is divided for a new
/// pane: side by side where it is at least twice as wide as high, else one
/// above the other.
pub open spec fn roomier_direction(area: Rect) -> SplitDirection {
    if area.cols >= 2 * area.rows {
        SplitDirection::Vertical
    } else {
        SplitDirection::Horizontal
    }
}

/// The ratio `step` thousandths from `current`, towards more for the first
/// part or towards less.
pub open spec fn moved_ratio(current: u16, grow: bool, step: int) -> int {
    if grow {
        current + step
    } else {
        current - step
    }
}

/// The ratio nearest to `current` moved by `step` thousandths that leaves
/// every pane a cell within its frame; `current` where no move of one to
/// `step` thousandths does.
pub open spec fn settled_ratio(
    tree: PaneTree,
    target: PaneId,
    direction: SplitDirection,
    grow: bool,
    area: Rect,
    current: u16,
    step: int,
) -> u16
    decreases step,
{
    if step <= 0 {
        current
    } else {
        let moved = moved_ratio(current, grow, step);
        if 0 <= moved <= RATIO_ONE && all_have_room(
            tree.with_ratio(target, direction, moved as u16).placed(area),
        ) {
            moved as u16
        } else {
            settled_ratio(tree, target, direction, grow, area, current, step - 1)
        }
    }
}

/// The pane that gets the focus when the focused pane `id` has left the
/// panes `before` and `after` are left: the pane before it, or the one after
/// it if it was the first; the next selectable one if that one is not.
pub open spec fn heir(before: Seq<Pane>, after: Seq<Pane>, id: PaneId) -> PaneId {
    let at = index_of_pane(before, id);
    let near = if at > 0 {
        at - 1
    } else {
        0
    };
    if after[near].settings.selectable {
        after[near].id
    } else {
        after[next_selectable(after, near, 1)].id
    }
}

/// The pane on which the focus of a new tab rests: the first selectable one,
/// or the first.
pub open spec fn first_focus(panes: Seq<Pane>) -> PaneId {
    if panes[0].settings.selectable {
        panes[0].id
    } else {
        panes[next_selectable(panes, 0, 1)].id
    }
}

impl Tab {
    /// The tiling is well-formed and the focused pane is one of its panes.
    pub open spec fn wf(self) -> bool {
        self.tree.wf() && self.tree.pane_ids().contains(self.focus)
    }

    /// The ids of the panes of the tab.
    pub open spec fn pane_ids(self) -> Set<PaneId> {
        self.tree.pane_ids()
    }

    /// The place of the focused pane among the panes.
    pub open spec fn focus_index(self) -> int {
        index_of_pane(self.tree.leaves(), self.focus)
    }

    /// The focused pane.
    pub open spec fn focused(self) -> Pane {
        self.tree.leaves()[self.focus_index()]
    }

    /// A tab that holds the pane `id` and no other.
    pub open spec fn opened(id: PaneId) -> Tab {
        Tab { tree: PaneTree::Leaf(Pane::fresh(id)), focus: id, fullscreen: false }
    }

    /// A tab laid out by `layout`, its panes named by `ids` in order.
    pub open spec fn planned(layout: Layout, ids: Seq<PaneId>) -> Tab {
        let tree = layout.populated(ids);
        Tab { tree, focus: first_focus(tree.leaves()), fullscreen: false }
    }

    /// The tab after the focused pane has made room for the new pane `id`,
    /// which gets the focus. Nothing changes where the tab has a pane `id`.
    pub open spec fn with_split(self, direction: SplitDirection, id: PaneId) -> Tab {
        if self.tree.pane_ids().contains(id) {
            self
        } else {
            Tab {
                tree: self.tree.with_split(self.focus, direction, Pane::fresh(id)),
                focus: id,
                fullscreen: false,
            }
        }
    }

    /// The tab after its largest pane has made room for the new pane `id`,
    /// which gets the focus. Nothing changes where the tab has a pane `id`.
    pub open spec fn with_new_pane(self, id: PaneId, area: Rect) -> Tab {
        if self.tree.pane_ids().contains(id) {
            self
        } else {
            let placed = self.tree.placed(area);
            let host = placed[largest(placed, placed.len() as int)];
            Tab {
                tree: self.tree.with_split(
                    host.pane.id,
                    roomier_direction(host.area),
                    Pane::fresh(id),
                ),
                focus: id,
                fullscreen: false,
            }
        }
    }

    /// The tab after the pane `id` has closed; `None` where it was the last.
    /// Nothing changes where the tab has no pane `id`.
    pub open spec fn without(self, id: PaneId) -> Option<Tab> {
        if !self.tree.pane_ids().contains(id) {
            Some(self)
        } else {
            match self.tree.without(id) {
                None => None,
                Some(rest) => Some(
                    Tab {
                        tree: rest,
                        focus: if self.focus == id {
                            heir(self.tree.leaves(), rest.leaves(), id)
                        } else {
                            self.focus
                        },
                        fullscreen: false,
                    },
                ),
            }
        }
    }

    /// The tab after the focus has moved to the next selectable pane.
    pub open spec fn with_next_focus(self) -> Tab {
        let panes = self.tree.leaves();
        Tab {
            tree: self.tree,
            focus: panes[next_selectable(panes, self.focus_index(), 1)].id,
            fullscreen: self.fullscreen,
        }
    }

    /// The tab after the focus has moved to the nearest selectable pane on
    /// the given side of the focused one, if there is any.
    pub open spec fn with_focus_toward(self, side: Side, area: Rect) -> Tab {
        let placed = self.tree.placed(area);
        match nearest(placed, self.focus_index(), side, placed.len() as int) {
            Some(found) => Tab {
                tree: self.tree,
                focus: placed[found].pane.id,
                fullscreen: self.fullscreen,
            },
            None => self,
        }
    }

    /// The tab after the nearest divider of the focused pane that can move
    /// towards `side` has moved there, by `RESIZE_STEP` or as far short of
    /// it as leaves every pane a cell within its frame.
    pub open spec fn resized(self, side: Side, area: Rect) -> Tab {
        let direction = divider_direction(side);
        match self.tree.enclosing(self.focus, direction) {
            Enclosing::Ratio(current) => {
                let settled = settled_ratio(
                    self.tree,
                    self.focus,
                    direction,
                    grows_first(side),
                    area,
                    current,
                    RESIZE_STEP as int,
                );
                if settled == current {
                    self
                } else {
                    Tab {
                        tree: self.tree.with_ratio(self.focus, direction, settled),
                        focus: self.focus,
                        fullscreen: self.fullscreen,
                    }
                }
            },
            _ => self,
        }
    }

    /// The tab with the settings of the pane `id` replaced. The focus leaves
    /// a focused pane that is no longer selectable for the next selectable
    /// one, if there is any.
    pub open spec fn with_settings(self, id: PaneId, settings: PaneSettings) -> Tab {
        if !self.tree.pane_ids().contains(id) {
            self
        } else {
            let tree = self.tree.with_pane(Pane { id, settings });
            Tab {
                tree,
                focus: if self.focus == id && !settings.selectable {
                    tree.leaves()[next_selectable(tree.leaves(), self.focus_index(), 1)].id
                } else {
                    self.focus
                },
                fullscreen: self.fullscreen,
            }
        }
    }

    /// The panes that are shown, with their cells, when the tab fills `area`.
    pub open spec fn visible(self, area: Rect) -> Seq<PlacedPane> {
        if self.fullscreen {
            seq![PlacedPane { pane: self.focused(), area }]
        } else {
            self.tree.placed(area)
        }
    }

    /// Opens a tab with the pane `id`.
    pub fn new(id: PaneId) -> (r: Tab)
        ensures
            r == Tab::opened(id),
            r.wf(),
    {
        Tab { tree: PaneTree::Leaf(Pane::new(id)), focus: id, fullscreen: false }
    }

    /// Opens a tab laid out by `layout`, with one pane for each of `ids`.
    pub fn from_layout(layout: &Layout, ids: &Vec<PaneId>) -> (r: Tab)
        requires
            layout.wf(),
            ids.len() == layout.leaf_count(),
            ids@.no_duplicates(),
        ensures
            r == Tab::planned(*layout, ids@),
            r.wf(),
            r.pane_ids() == ids@.to_set(),
    {
        let tree = layout.populate(ids);
        proof {
            lemma_populated(*layout, ids@);
            lemma_leaves(tree);
        }
        let panes = tree.panes();
        let focus = if panes[0].settings.selectable {
            panes[0].id
        } else {
            panes[next_selectable_index(&panes, 0)].id
        };
        Tab { tree, focus, fullscreen: false }
    }

    /// The place of the focused pane among `panes`, the panes of the tab.
    fn focus_place(&self, panes: &Vec<Pane>) -> (r: usize)
        requires
            self.wf(),
            panes@ == self.tree.leaves(),
        ensures
            r == self.focus_index(),
            r < panes.len(),
            panes[r as int].id == self.focus,
    {
        proof {
            lemma_leaves(self.tree);
            lemma_leaves_distinct(self.tree);
        }
        match find_pane(panes, self.focus) {
            Some(at) => {
                proof {
                    lemma_index_of_pane(panes@, self.focus, at as int);
                }
                at
            },
            None => {
                proof {
                    let i = choose|i: int|
                        0 <= i < self.tree.leaves().len() && (#[trigger] self.tree.leaves()[i]).id
                            == self.focus;
                    assert(panes[i].id == self.focus);
                }
                0
            },
        }
    }

    /// The focused pane.
    pub fn focused_pane(&self) -> (r: Pane)
        requires
            self.wf(),
        ensures
            r == self.focused(),
            r.id == self.focus,
    {
        let panes = self.tree.panes();
        let at = self.focus_place(&panes);
        panes[at]
    }

    /// Divides the focused pane in `direction` and opens the pane `id` in
    /// the second part.
    pub fn split(&mut self, direction: SplitDirection, id: PaneId)
        requires
            old(self).wf(),
        ensures
            *final(self) == old(self).with_split(direction, id),
            final(self).wf(),
            final(self).pane_ids() == old(self).pane_ids().insert(id),
    {
        if self.tree.contains(id) {
            assert(self.pane_ids().insert(id) =~= self.pane_ids());
            return ;
        }
        proof {
            lemma_split(self.tree, self.focus, direction, Pane::fresh(id));
        }
        self.tree = self.tree.split(self.focus, direction, Pane::new(id));
        self.focus = id;
        self.fullscreen = false;
    }

    /// Opens the pane `id` below the focused pane.
    pub fn horizontal_split(&mut self, id: PaneId)
        requires
            old(self).wf(),
        ensures
            *final(self) == old(self).with_split(SplitDirection::Horizontal, id),
            final(self).wf(),
            final(self).pane_ids() == old(self).pane_ids().insert(id),
    {
        self.split(SplitDirection::Horizontal, id)
    }

    /// Opens the pane `id` to the right of the focused pane.
    pub fn vertical_split(&mut self, id: PaneId)
        requires
            old(self).wf(),
        ensures
            *final(self) == old(self).with_split(SplitDirection::Vertical, id),
            final(self).wf(),
            final(self).pane_ids() == old(self).pane_ids().insert(id),
    {
        self.split(SplitDirection::Vertical, id)
    }

    /// Opens the pane `id` in one half of the largest pane.
    pub fn new_pane(&mut self, id: PaneId, area: Rect)
        requires
            old(self).wf(),
            area.fits(),
        ensures
            *final(self) == old(self).with_new_pane(id, area),
            final(self).wf(),
            final(self).pane_ids() == old(self).pane_ids().insert(id),
    {
        if self.tree.contains(id) {
            assert(self.pane_ids().insert(id) =~= self.pane_ids());
            return ;
        }
        let placed = self.tree.place(area);
        proof {
            lemma_leaves(self.tree);
            lemma_placed_leaves(self.tree, area);
        }
        let host = placed[largest_index(&placed)];
        let direction = if host.area.cols as u32 >= 2 * (host.area.rows as u32) {
            SplitDirection::Vertical
        } else {
            SplitDirection::Horizontal
        };
        proof {
            lemma_split(self.tree, host.pane.id, direction, Pane::fresh(id));
        }
        self.tree = self.tree.split(host.pane.id, direction, Pane::new(id));
        self.focus = id;
        self.fullscreen = false;
    }

    /// Closes the pane `id`. The tab is gone where it was the last pane.
    pub fn close_pane(self, id: PaneId) -> (r: Option<Tab>)
        requires
            self.wf(),
        ensures
            r == self.without(id),
            r is None <==> self.pane_ids() == set![id],
            r matches Some(tab) ==> tab.wf() && tab.pane_ids() == self.pane_ids().remove(id),
    {
        proof {
            lemma_without(self.tree, id);
            lemma_leaves(self.tree);
            lemma_leaves_distinct(self.tree);
        }
        if !self.tree.contains(id) {
            assert(self.pane_ids().remove(id) =~= self.pane_ids());
            return Some(self);
        }
        match self.tree.remove(id) {
            None => None,
            Some(rest) => {
                if self.focus != id {
                    return Some(Tab { tree: rest, focus: self.focus, fullscreen: false });
                }
                let before = self.tree.panes();
                let after = rest.panes();
                let at = self.focus_place(&before);
                proof {
                    lemma_without_leaves(self.tree, id, at as int);
                    lemma_leaves(rest);
                }
                let near: usize = if at > 0 {
                    at - 1
                } else {
                    0
                };
                let focus = if after[near].settings.selectable {
                    after[near].id
                } else {
                    after[next_selectable_index(&after, near)].id
                };
                Some(Tab { tree: rest, focus, fullscreen: false })
            },
        }
    }

    /// Moves the focus to the next selectable pane.
    pub fn move_focus(&mut self)
        requires
            old(self).wf(),
        ensures
            *final(self) == old(self).with_next_focus(),
            final(self).wf(),
            final(self).pane_ids() == old(self).pane_ids(),
    {
        let panes = self.tree.panes();
        let at = self.focus_place(&panes);
        let next = next_selectable_index(&panes, at);
        proof {
            lemma_leaves(self.tree);
        }
        self.focus = panes[next].id;
    }

    /// Moves the focus to the nearest selectable pane on the given side.
    pub fn move_focus_toward(&mut self, side: Side, area: Rect)
        requires
            old(self).wf(),
            area.fits(),
        ensures
            *final(self) == old(self).with_focus_toward(side, area),
            final(self).wf(),
            final(self).pane_ids() == old(self).pane_ids(),
    {
        let panes = self.tree.panes();
        let at = self.focus_place(&panes);
        let placed = self.tree.place(area);
        proof {
            lemma_leaves(self.tree);
            lemma_placed_leaves(self.tree, area);
        }
        match nearest_index(&placed, at, side) {
            Some(found) => {
                assert(placed[found as int].pane == self.tree.leaves()[found as int]);
                self.focus = placed[found].pane.id;
            },
            None => {},
        }
    }

    /// Moves the nearest divider of the focused pane towards `side`.
    pub fn resize(&mut self, side: Side, area: Rect)
        requires
            old(self).wf(),
            area.fits(),
        ensures
            *final(self) == old(self).resized(side, area),
            final(self).wf(),
            final(self).pane_ids() == old(self).pane_ids(),
    {
        let direction = match side {
            Side::Left | Side::Right => SplitDirection::Vertical,
            Side::Up | Side::Down => SplitDirection::Horizontal,
        };
        let grow = match side {
            Side::Right | Side::Down => true,
            Side::Left | Side::Up => false,
        };
        proof {
            lemma_enclosing(self.tree, self.focus, direction);
        }
        if let Enclosing::Ratio(current) = self.tree.nearest_split(self.focus, direction) {
            let mut step: u16 = RESIZE_STEP;
            while step > 0
                invariant
                    0 <= step <= RESIZE_STEP,
                    current <= RATIO_ONE,
                    area.fits(),
                    *self == *old(self),
                    self.wf(),
                    direction == divider_direction(side),
                    grow == grows_first(side),
                    self.tree.enclosing(self.focus, direction) == Enclosing::Ratio(current),
                    settled_ratio(
                        self.tree,
                        self.focus,
                        direction,
                        grow,
                        area,
                        current,
                        step as int,
                    ) == settled_ratio(
                        self.tree,
                        self.focus,
                        direction,
                        grow,
                        area,
                        current,
                        RESIZE_STEP as int,
                    ),
                decreases step,
            {
                let moved: Option<u16> = if grow {
                    if current <= RATIO_ONE - step {
                        Some(current + step)
                    } else {
                        None
                    }
                } else {
                    if current >= step {
                        Some(current - step)
                    } else {
                        None
                    }
                };
                if let Some(ratio) = moved {
                    let tree = self.tree.set_ratio(self.focus, direction, ratio);
                    proof {
                        lemma_with_ratio(self.tree, self.focus, direction, ratio);
                    }
                    let placed = tree.place(area);
                    if every_pane_has_room(&placed) {
                        self.tree = tree;
                        return ;
                    }
                }
                step -= 1;
            }
        }
    }

    /// Shows the focused pane alone, or all panes again.
    pub fn toggle_active_pane_fullscreen(&mut self)
        ensures
            *final(self) == (Tab {
                tree: old(self).tree,
                focus: old(self).focus,
                fullscreen: !old(self).fullscreen,
            }),
    {
        self.fullscreen = !self.fullscreen;
    }

    /// Replaces the settings of the pane `id`.
    pub fn set_pane_settings(&mut self, id: PaneId, settings: PaneSettings)
        requires
            old(self).wf(),
        ensures
            *final(self) == old(self).with_settings(id, settings),
            final(self).wf(),
            final(self).pane_ids() == old(self).pane_ids(),
    {
        if !self.tree.contains(id) {
            return ;
        }
        let pane = Pane { id, settings };
        let before = self.tree.panes();
        let at = self.focus_place(&before);
        proof {
            lemma_with_pane(self.tree, pane);
            lemma_leaves(self.tree);
        }
        let tree = self.tree.replace(pane);
        if self.focus == id && !settings.selectable {
            let panes = tree.panes();
            proof {
                lemma_with_pane_leaves(self.tree, pane, at as int);
                lemma_leaves(tree);
            }
            let next = next_selectable_index(&panes, at);
            self.focus = panes[next].id;
        }
        self.tree = tree;
    }

    /// Says whether the focus may rest on the pane `id`.
    pub fn set_pane_selectable(&mut self, id: PaneId, selectable: bool)
        requires
            old(self).wf(),
        ensures
            old(self).tree.find(id) matches Some(pane) ==> *final(self) == old(self).with_settings(
                id,
                PaneSettings { selectable, ..pane.settings },
            ),
            old(self).tree.find(id) is None ==> *final(self) == *old(self),
            final(self).wf(),
            final(self).pane_ids() == old(self).pane_ids(),
    {
        if let Some(pane) = self.tree.get(id) {
            self.set_pane_settings(
                id,
                PaneSettings {
                    selectable,
                    max_height: pane.settings.max_height,
                    invisible_borders: pane.settings.invisible_borders,
                },
            );
        }
    }

    /// Sets the number of rows that the pane `id` asks not to exceed.
    pub fn set_pane_max_height(&mut self, id: PaneId, max_height: usize)
        requires
            old(self).wf(),
        ensures
            old(self).tree.find(id) matches Some(pane) ==> *final(self) == old(self).with_settings(
                id,
                PaneSettings { max_height: Some(max_height), ..pane.settings },
            ),
            old(self).tree.find(id) is None ==> *final(self) == *old(self),
            final(self).wf(),
            final(self).pane_ids() == old(self).pane_ids(),
    {
        if let Some(pane) = self.tree.get(id) {
            self.set_pane_settings(
                id,
                PaneSettings {
                    selectable: pane.settings.selectable,
                    max_height: Some(max_height),
                    invisible_borders: pane.settings.invisible_borders,
                },
            );
        }
    }

    /// Says whether the pane `id` is drawn without a frame.
    pub fn set_pane_invisible_borders(&mut self, id: PaneId, invisible_borders: bool)
        requires
            old(self).wf(),
        ensures
            old(self).tree.find(id) matches Some(pane) ==> *final(self) == old(self).with_settings(
                id,
                PaneSettings { invisible_borders, ..pane.settings },
            ),
            old(self).tree.find(id) is None ==> *final(self) == *old(self),
            final(self).wf(),
            final(self).pane_ids() == old(self).pane_ids(),
    {
        if let Some(pane) = self.tree.get(id) {
            self.set_pane_settings(
                id,
                PaneSettings {
                    selectable: pane.settings.selectable,
                    max_height: pane.settings.max_height,
                    invisible_borders,
                },
            );
        }
    }

    /// The panes that are shown, with their cells, when the tab fills `area`.
    pub fn visible_panes(&self, area: Rect) -> (r: Vec<PlacedPane>)
        requires
            self.wf(),
            area.fits(),
        ensures
            r@ == self.visible(area),
            tiles(r@, area),
    {
        proof {
            lemma_tree_tiles(self.tree, area);
        }
        if self.fullscreen {
            let mut shown: Vec<PlacedPane> = Vec::new();
            shown.push(PlacedPane { pane: self.focused_pane(), area });
            assert(shown@ =~= self.visible(area));
            assert forall|x: int, y: int| #[trigger] area.contains(x, y) implies exists|i: int|
                0 <= i < shown@.len() && (#[trigger] shown@[i]).area.contains(x, y) by {
                assert(shown@[0].area.contains(x, y));
            }
            shown
        } else {
            self.tree.place(area)
        }
    }
}

/// A split keeps a tab well-formed and adds the new pane to its panes.
pub proof fn lemma_tab_with_split(tab: Tab, direction: SplitDirection, id: PaneId)
    requires
        tab.wf(),
    ensures
        tab.with_split(direction, id).wf(),
        tab.with_split(direction, id).pane_ids() == tab.pane_ids().insert(id),
{
    if tab.tree.pane_ids().contains(id) {
        assert(tab.pane_ids().insert(id) =~= tab.pane_ids());
    } else {
        lemma_split(tab.tree, tab.focus, direction, Pane::fresh(id));
    }
}

/// A new pane keeps a tab well-formed and is added to its panes.
pub proof fn lemma_tab_with_new_pane(tab: Tab, id: PaneId, area: Rect)
    requires
        tab.wf(),
    ensures
        tab.with_new_pane(id, area).wf(),
        tab.with_new_pane(id, area).pane_ids() == tab.pane_ids().insert(id),
{
    if tab.tree.pane_ids().contains(id) {
        assert(tab.pane_ids().insert(id) =~= tab.pane_ids());
    } else {
        let placed = tab.tree.placed(area);
        lemma_leaves(tab.tree);
        lemma_placed_leaves(tab.tree, area);
        crate::focus::lemma_largest(placed, placed.len() as int);
        let at = largest(placed, placed.len() as int);
        let host = placed[at];
        assert(host.pane == tab.tree.leaves()[at]);
        lemma_split(tab.tree, host.pane.id, roomier_direction(host.area), Pane::fresh(id));
    }
}

/// Closing a pane leaves a well-formed tab with the other panes, or no tab
/// where the pane was the only one.
pub proof fn lemma_tab_without(tab: Tab, id: PaneId)
    requires
        tab.wf(),
    ensures
        tab.without(id) is None <==> tab.pane_ids() == set![id],
        tab.without(id) matches Some(rest) ==> rest.wf() && rest.pane_ids()
            == tab.pane_ids().remove(id),
{
    lemma_without(tab.tree, id);
    lemma_leaves(tab.tree);
    lemma_leaves_distinct(tab.tree);
    if !tab.tree.pane_ids().contains(id) {
        assert(tab.pane_ids().remove(id) =~= tab.pane_ids());
        assert(tab.pane_ids().contains(tab.focus));
        assert(!set![id].contains(tab.focus));
    } else if let Some(rest) = tab.tree.without(id) {
        if tab.focus == id {
            let before = tab.tree.leaves();
            let after = rest.leaves();
            let at = choose|i: int| 0 <= i < before.len() && (#[trigger] before[i]).id == id;
            lemma_index_of_pane(before, id, at);
            lemma_without_leaves(tab.tree, id, at);
            lemma_leaves(rest);
            let near = if at > 0 {
                at - 1
            } else {
                0
            };
            crate::focus::lemma_next_selectable(after, near, 1);
        }
    }
}

/// Moving the focus keeps a tab well-formed and its panes as they are.
pub proof fn lemma_tab_focus(tab: Tab, side: Side, area: Rect)
    requires
        tab.wf(),
    ensures
        tab.with_next_focus().wf(),
        tab.with_next_focus().tree == tab.tree,
        tab.with_focus_toward(side, area).wf(),
        tab.with_focus_toward(side, area).tree == tab.tree,
{
    lemma_leaves(tab.tree);
    lemma_leaves_distinct(tab.tree);
    lemma_placed_leaves(tab.tree, area);
    let panes = tab.tree.leaves();
    let at = choose|i: int| 0 <= i < panes.len() && (#[trigger] panes[i]).id == tab.focus;
    lemma_index_of_pane(panes, tab.focus, at);
    crate::focus::lemma_next_selectable(panes, at, 1);
    let placed = tab.tree.placed(area);
    crate::focus::lemma_nearest(placed, at, side, placed.len() as int);
    if let Some(found) = nearest(placed, at, side, placed.len() as int) {
        assert(placed[found].pane == panes[found]);
    }
}

/// The focus moves to selectable panes only: where a move has taken it to
/// another pane, that pane is selectable.
pub proof fn lemma_focus_rests_on_selectable(tab: Tab, side: Side, area: Rect)
    requires
        tab.wf(),
    ensures
        tab.with_next_focus().focus != tab.focus ==> tab.with_next_focus().focused().settings.selectable,
        tab.with_focus_toward(side, area).focus != tab.focus ==> tab.with_focus_toward(
            side,
            area,
        ).focused().settings.selectable,
{
    lemma_leaves(tab.tree);
    lemma_leaves_distinct(tab.tree);
    lemma_placed_leaves(tab.tree, area);
    let panes = tab.tree.leaves();
    let at = choose|i: int| 0 <= i < panes.len() && (#[trigger] panes[i]).id == tab.focus;
    lemma_index_of_pane(panes, tab.focus, at);
    crate::focus::lemma_next_selectable(panes, at, 1);
    let next = next_selectable(panes, at, 1);
    lemma_index_of_pane(panes, panes[next].id, next);
    let placed = tab.tree.placed(area);
    crate::focus::lemma_nearest(placed, at, side, placed.len() as int);
    if let Some(found) = nearest(placed, at, side, placed.len() as int) {
        assert(placed[found].pane == panes[found]);
        lemma_index_of_pane(panes, panes[found].id, found);
    }
}

/// A resize keeps a tab well-formed and its panes, their order and the
/// focus as they are.
pub proof fn lemma_tab_resized(tab: Tab, side: Side, area: Rect)
    requires
        tab.wf(),
    ensures
        tab.resized(side, area).wf(),
        tab.resized(side, area).pane_ids() == tab.pane_ids(),
        tab.resized(side, area).tree.leaves() == tab.tree.leaves(),
        tab.resized(side, area).focus == tab.focus,
        tab.resized(side, area).fullscreen == tab.fullscreen,
{
    let direction = divider_direction(side);
    lemma_enclosing(tab.tree, tab.focus, direction);
    if let Enclosing::Ratio(current) = tab.tree.enclosing(tab.focus, direction) {
        lemma_settled_ratio(
            tab.tree,
            tab.focus,
            direction,
            grows_first(side),
            area,
            current,
            RESIZE_STEP as int,
        );
        let settled = settled_ratio(
            tab.tree,
            tab.focus,
            direction,
            grows_first(side),
            area,
            current,
            RESIZE_STEP as int,
        );
        lemma_with_ratio(tab.tree, tab.focus, direction, settled);
    }
}

/// The ratio that a resize settles on is a ratio; it lies no further than
/// `step` from the current one, on the side asked for; unless it is the
/// current one it leaves every pane a cell within its frame; and no ratio
/// between it and the full step does.
pub proof fn lemma_settled_ratio(
    tree: PaneTree,
    target: PaneId,
    direction: SplitDirection,
    grow: bool,
    area: Rect,
    current: u16,
    step: int,
)
    requires
        current <= RATIO_ONE,
        0 <= step,
    ensures
        ({
            let settled = settled_ratio(tree, target, direction, grow, area, current, step);
            let moved = if grow {
                settled - current
            } else {
                current - settled
            };
            &&& settled <= RATIO_ONE
            &&& 0 <= moved <= step
            &&& moved > 0 ==> all_have_room(tree.with_ratio(target, direction, settled).placed(area))
            &&& forall|further: int|
                moved < further <= step && 0 <= #[trigger] moved_ratio(current, grow, further)
                    <= RATIO_ONE ==> !all_have_room(
                    tree.with_ratio(
                        target,
                        direction,
                        moved_ratio(current, grow, further) as u16,
                    ).placed(area),
                )
        }),
    decreases step,
{
    if step > 0 {
        lemma_settled_ratio(tree, target, direction, grow, area, current, step - 1);
    }
}

/// New settings keep a tab well-formed and its panes as they are.
pub proof fn lemma_tab_with_settings(tab: Tab, id: PaneId, settings: PaneSettings)
    requires
        tab.wf(),
    ensures
        tab.with_settings(id, settings).wf(),
        tab.with_settings(id, settings).pane_ids() == tab.pane_ids(),
{
    if tab.tree.pane_ids().contains(id) {
        let pane = Pane { id, settings };
        let tree = tab.tree.with_pane(pane);
        lemma_with_pane(tab.tree, pane);
        lemma_leaves(tab.tree);
        lemma_leaves_distinct(tab.tree);
        lemma_leaves(tree);
        let panes = tab.tree.leaves();
        let at = choose|i: int| 0 <= i < panes.len() && (#[trigger] panes[i]).id == tab.focus;
        lemma_index_of_pane(panes, tab.focus, at);
        if tab.focus == id {
            lemma_with_pane_leaves(tab.tree, pane, at);
            crate::focus::lemma_next_selectable(tree.leaves(), at, 1);
        }
    }
}

/// A tab laid out by a plan is well-formed and holds exactly the panes
/// that were named.
pub proof fn lemma_tab_planned(layout: Layout, ids: Seq<PaneId>)
    requires
        layout.wf(),
        ids.len() == layout.leaf_count(),
        ids.no_duplicates(),
    ensures
        Tab::planned(layout, ids).wf(),
        Tab::planned(layout, ids).pane_ids() == ids.to_set(),
{
    lemma_populated(layout, ids);
    let tree = layout.populated(ids);
    lemma_leaves(tree);
    crate::focus::lemma_next_selectable(tree.leaves(), 0, 1);
}

} // verus!
