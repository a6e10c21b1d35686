//! Axis-aligned room rectangles: construction, overlap testing and centers.

use vstd::prelude::*;

verus! {

/// An axis-aligned rectangle spanning `[x1, x2] x [y1, y2]`.
#[derive(Clone, Copy, PartialEq, Eq, Structural, Debug)]
pub struct Rect {
    pub x1: i32,
    pub y1: i32,
    pub x2: i32,
    pub y2: i32,
}

impl Rect {
    /// Two rectangles overlap when their spans overlap on both axes
    /// (inclusive, so rectangles sharing an edge count as overlapping).
    pub open spec fn spec_intersect(self, other: Rect) -> bool {
        self.x1 <= other.x2 && self.x2 >= other.x1 && self.y1 <= other.y2 && self.y2 >= other.y1
    }

    /// The rectangle lies inside the 80x50 grid with room for the one-cell
    /// padding that carving leaves around each room interior.
    pub open spec fn in_map_bounds(self) -> bool {
        0 <= self.x1 && self.x1 < self.x2 && self.x2 < 80 && 0 <= self.y1 && self.y1 < self.y2
            && self.y2 < 50
    }

    /// The midpoint of the rectangle, with halves rounded down.
    pub open spec fn spec_center(self) -> (int, int) {
        ((self.x1 + self.x2) / 2, (self.y1 + self.y2) / 2)
    }

    pub fn new(x: i32, y: i32, w: i32, h: i32) -> (r: Rect)
        requires
            i32::MIN <= x + w <= i32::MAX,
            i32::MIN <= y + h <= i32::MAX,
        ensures
            r.x1 == x,
            r.y1 == y,
            r.x2 == x + w,
            r.y2 == y + h,
    {
        Rect { x1: x, y1: y, x2: x + w, y2: y + h }
    }

    pub fn intersect(&self, other: &Rect) -> (r: bool)
        ensures
            r == self.spec_intersect(*other),
    {
        self.x1 <= other.x2 && self.x2 >= other.x1 && self.y1 <= other.y2 && self.y2 >= other.y1
    }

    pub fn center(&self) -> (c: (i32, i32))
        requires
            self.in_map_bounds(),
        ensures
            (c.0 as int, c.1 as int) == self.spec_center(),
    {
        ((self.x1 + self.x2) / 2, (self.y1 + self.y2) / 2)
    }
}

/// Overlap is symmetric: swapping the two rectangles does not change the test.
pub proof fn lemma_intersect_symmetric(a: Rect, b: Rect)
    ensures
        a.spec_intersect(b) == b.spec_intersect(a),
{
}

} // verus!
