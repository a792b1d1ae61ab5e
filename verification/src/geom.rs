//! Integer geometry for the drawing model: points, axis-aligned rectangles,
//! and per-corner rounding for rectangle outlines.

use vstd::prelude::*;

verus! {

/// Coordinates are kept within this bound so that the sums and differences the
/// dispatcher forms (at most three terms) always fit in an `i64`.
pub const COORD_LIMIT: i64 = 0x1_0000_0000;

/// A point on the drawing surface, in logical pixels.
#[derive(Clone, Copy, PartialEq, Eq, Structural, Debug)]
pub struct Pos {
    pub x: i64,
    pub y: i64,
}

impl Pos {
    /// Whether the point lies within the coordinate bound.
    pub open spec fn wf(self) -> bool {
        -COORD_LIMIT <= self.x <= COORD_LIMIT && -COORD_LIMIT <= self.y <= COORD_LIMIT
    }

}

/// An axis-aligned rectangle, given by its top-left and bottom-right corners.
#[derive(Clone, Copy, PartialEq, Eq, Structural, Debug)]
pub struct Rect {
    pub min: Pos,
    pub max: Pos,
}

impl Rect {
    /// Corners are within bounds and ordered: `min` is the top-left corner.
    pub open spec fn wf(self) -> bool {
        self.min.wf() && self.max.wf() && self.min.x <= self.max.x && self.min.y <= self.max.y
    }

    pub open spec fn spec_width(self) -> int {
        self.max.x - self.min.x
    }

    pub open spec fn spec_height(self) -> int {
        self.max.y - self.min.y
    }

    pub fn width(&self) -> (w: i64)
        requires
            self.wf(),
        ensures
            w == self.spec_width(),
    {
        self.max.x - self.min.x
    }

    pub fn height(&self) -> (h: i64)
        requires
            self.wf(),
        ensures
            h == self.spec_height(),
    {
        self.max.y - self.min.y
    }
}

/// Four independent corner radii for a rectangle outline: north-west,
/// north-east, south-east, south-west. A zero radius is a sharp corner.
#[derive(Clone, Copy, PartialEq, Eq, Structural, Debug)]
pub struct Rounding {
    pub nw: i64,
    pub ne: i64,
    pub se: i64,
    pub sw: i64,
}

impl Rounding {
    /// Radii are non-negative and within the coordinate bound.
    pub open spec fn wf(self) -> bool {
        0 <= self.nw <= COORD_LIMIT && 0 <= self.ne <= COORD_LIMIT && 0 <= self.se <= COORD_LIMIT
            && 0 <= self.sw <= COORD_LIMIT
    }

    /// Radii of touching corners do not overlap along any edge of `rect`:
    /// opposite corners leave room for each other.
    pub open spec fn fits(self, rect: Rect) -> bool {
        self.nw + self.ne <= rect.spec_width() && self.sw + self.se <= rect.spec_width()
            && self.nw + self.sw <= rect.spec_height() && self.ne + self.se <= rect.spec_height()
    }

}

} // verus!
