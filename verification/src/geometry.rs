//! Rectangles of character cells and the arithmetic of dividing them.

use vstd::prelude::*;

verus! {

/// The largest split ratio: the first part takes everything.
pub const RATIO_ONE: u16 = 1000;

/// The ratio of a fresh split: both parts take half.
pub const RATIO_HALF: u16 = 500;

/// How a pane is divided in two.
#[derive(Clone, Copy, Debug, PartialEq, Eq, Structural)]
pub enum SplitDirection {
    /// The parts lie one above the other.
    Horizontal,
    /// The parts lie side by side.
    Vertical,
}

/// A rectangle of cells: `cols` columns from column `x` on, `rows` rows from
/// row `y` on.
#[derive(Clone, Copy, Debug, PartialEq, Eq, Structural)]
pub struct Rect {
    pub x: u16,
    pub y: u16,
    pub cols: u16,
    pub rows: u16,
}

/// The length of the first part when `total` cells are divided at `ratio`
/// thousandths.
pub open spec fn share(total: int, ratio: int) -> int {
    total * ratio / 1000
}

/// The first part is never longer than the whole.
pub proof fn lemma_share_bounds(total: int, ratio: int)
    requires
        0 <= total,
        0 <= ratio <= 1000,
    ensures
        0 <= share(total, ratio) <= total,
{
    assert(0 <= total * ratio <= total * 1000) by (nonlinear_arith)
        requires
            0 <= total,
            0 <= ratio <= 1000,
    ;
}

impl Rect {
    /// Whether the rectangle ends within the range of cell coordinates.
    pub open spec fn fits(self) -> bool {
        self.x + self.cols <= u16::MAX && self.y + self.rows <= u16::MAX
    }

    /// Whether the cell in column `x` and row `y` lies in the rectangle.
    pub open spec fn contains(self, x: int, y: int) -> bool {
        self.x <= x < self.x + self.cols && self.y <= y < self.y + self.rows
    }

    /// Whether the rectangle holds no cell.
    pub open spec fn is_empty(self) -> bool {
        self.cols == 0 || self.rows == 0
    }

    /// Whether no edge of the rectangle lies outside `outer`.
    pub open spec fn within(self, outer: Rect) -> bool {
        &&& outer.x <= self.x
        &&& self.x + self.cols <= outer.x + outer.cols
        &&& outer.y <= self.y
        &&& self.y + self.rows <= outer.y + outer.rows
    }

    /// Whether the two rectangles share no cell.
    pub open spec fn disjoint(self, other: Rect) -> bool {
        forall|x: int, y: int| !(#[trigger] self.contains(x, y) && other.contains(x, y))
    }

    /// The first part of the rectangle divided in `direction` at `ratio`:
    /// the upper part of a horizontal split, the left part of a vertical one.
    pub open spec fn first_part(self, direction: SplitDirection, ratio: u16) -> Rect {
        match direction {
            SplitDirection::Horizontal => Rect {
                x: self.x,
                y: self.y,
                cols: self.cols,
                rows: share(self.rows as int, ratio as int) as u16,
            },
            SplitDirection::Vertical => Rect {
                x: self.x,
                y: self.y,
                cols: share(self.cols as int, ratio as int) as u16,
                rows: self.rows,
            },
        }
    }

    /// The second part: what `first_part` leaves of the rectangle.
    pub open spec fn second_part(self, direction: SplitDirection, ratio: u16) -> Rect {
        match direction {
            SplitDirection::Horizontal => Rect {
                x: self.x,
                y: (self.y + share(self.rows as int, ratio as int)) as u16,
                cols: self.cols,
                rows: (self.rows - share(self.rows as int, ratio as int)) as u16,
            },
            SplitDirection::Vertical => Rect {
                x: (self.x + share(self.cols as int, ratio as int)) as u16,
                y: self.y,
                cols: (self.cols - share(self.cols as int, ratio as int)) as u16,
                rows: self.rows,
            },
        }
    }

    /// The rectangle that starts at the origin with the given size.
    pub fn screen(rows: u16, cols: u16) -> (r: Rect)
        ensures
            r == (Rect { x: 0, y: 0, cols, rows }),
            r.fits(),
    {
        Rect { x: 0, y: 0, cols, rows }
    }

    /// Divides the rectangle in `direction` at `ratio` thousandths.
    pub fn divide(&self, direction: SplitDirection, ratio: u16) -> (parts: (Rect, Rect))
        requires
            self.fits(),
            ratio <= RATIO_ONE,
        ensures
            parts.0 == self.first_part(direction, ratio),
            parts.1 == self.second_part(direction, ratio),
    {
        match direction {
            SplitDirection::Horizontal => {
                let head = first_length(self.rows, ratio);
                (
                    Rect { x: self.x, y: self.y, cols: self.cols, rows: head },
                    Rect { x: self.x, y: self.y + head, cols: self.cols, rows: self.rows - head },
                )
            },
            SplitDirection::Vertical => {
                let head = first_length(self.cols, ratio);
                (
                    Rect { x: self.x, y: self.y, cols: head, rows: self.rows },
                    Rect { x: self.x + head, y: self.y, cols: self.cols - head, rows: self.rows },
                )
            },
        }
    }

    /// The number of cells in the rectangle.
    pub fn cells(&self) -> (r: u32)
        ensures
            r == self.cols * self.rows,
    {
        assert(self.cols * self.rows <= 0xffff * 0xffff) by (nonlinear_arith)
            requires
                self.cols <= 0xffff,
                self.rows <= 0xffff,
        ;
        (self.cols as u32) * (self.rows as u32)
    }
}

/// The length of the first part of `total` cells divided at `ratio`
/// thousandths, rounded down.
pub fn first_length(total: u16, ratio: u16) -> (r: u16)
    requires
        ratio <= RATIO_ONE,
    ensures
        r == share(total as int, ratio as int),
        r <= total,
{
    proof {
        lemma_share_bounds(total as int, ratio as int);
        assert(total * ratio <= 0xffff * 1000) by (nonlinear_arith)
            requires
                0 <= total <= 0xffff,
                0 <= ratio <= 1000,
        ;
    }
    let product: u32 = (total as u32) * (ratio as u32);
    (product / 1000) as u16
}

/// The two parts of a divided rectangle lie within it, share no cell, and
/// leave no cell of it out.
pub proof fn lemma_parts_tile(area: Rect, direction: SplitDirection, ratio: u16)
    requires
        area.fits(),
        ratio <= RATIO_ONE,
    ensures
        area.first_part(direction, ratio).fits(),
        area.second_part(direction, ratio).fits(),
        area.first_part(direction, ratio).within(area),
        area.second_part(direction, ratio).within(area),
        area.first_part(direction, ratio).disjoint(area.second_part(direction, ratio)),
        forall|x: int, y: int| #[trigger]
            area.contains(x, y) ==> area.first_part(direction, ratio).contains(x, y)
                || area.second_part(direction, ratio).contains(x, y),
{
    lemma_share_bounds(area.rows as int, ratio as int);
    lemma_share_bounds(area.cols as int, ratio as int);
}

} // verus!
