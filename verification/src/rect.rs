//! Axis-aligned rectangles with integer bounds.

use vstd::prelude::*;

verus! {

/// An axis-aligned box with integer bounds; the extent of a room.
///
/// `x2` and `y2` are the far edges. A rectangle made by [`Rect::new`] from an
/// origin and a positive size has `x1 < x2` and `y1 < y2`.
#[derive(Clone, Copy, Debug, PartialEq, Eq, Structural)]
pub struct Rect {
    pub x1: i32,
    pub x2: i32,
    pub y1: i32,
    pub y2: i32,
}

/// The midpoint of `a` and `b`, rounded towards negative infinity.
fn midpoint(a: i32, b: i32) -> (m: i32)
    ensures
        m == (a + b) / 2,
{
    let sum: i64 = a as i64 + b as i64;
    if sum >= 0 {
        (sum / 2) as i32
    } else {
        (-((1 - sum) / 2)) as i32
    }
}

impl Rect {
    /// Both extents are positive.
    pub open spec fn wf(self) -> bool {
        self.x1 < self.x2 && self.y1 < self.y2
    }

    /// The rectangle with origin `(x, y)`, width `w` and height `h`.
    pub open spec fn spec_new(x: i32, y: i32, w: i32, h: i32) -> Rect {
        Rect { x1: x, x2: (x + w) as i32, y1: y, y2: (y + h) as i32 }
    }

    /// Overlap test that counts touching edges as overlap.
    pub open spec fn spec_intersect(self, other: Rect) -> bool {
        self.x1 <= other.x2 && self.x2 >= other.x1 && self.y1 <= other.y2 && self.y2 >= other.y1
    }

    /// The midpoint of the bounds on each axis, rounded down.
    pub open spec fn spec_center(self) -> (int, int) {
        ((self.x1 + self.x2) / 2, (self.y1 + self.y2) / 2)
    }

    /// Whether the cell `(x, y)` belongs to the interior that is carved for
    /// this room: exclusive of the near edges, inclusive of the far ones.
    pub open spec fn interior_contains(self, x: int, y: int) -> bool {
        self.x1 < x <= self.x2 && self.y1 < y <= self.y2
    }

    /// Builds the rectangle `(x, y, x + w, y + h)`.
    pub fn new(x: i32, y: i32, w: i32, h: i32) -> (r: Rect)
        requires
            w > 0,
            h > 0,
            x + w <= i32::MAX,
            y + h <= i32::MAX,
        ensures
            r == Rect::spec_new(x, y, w, h),
            r.x1 == x && r.x2 == x + w && r.y1 == y && r.y2 == y + h,
            r.wf(),
    {
        Rect { x1: x, x2: x + w, y1: y, y2: y + h }
    }

    /// Whether the two rectangles overlap or touch.
    pub fn intersect(&self, other: &Rect) -> (b: bool)
        ensures
            b == self.spec_intersect(*other),
    {
        self.x1 <= other.x2 && self.x2 >= other.x1 && self.y1 <= other.y2 && self.y2 >= other.y1
    }

    /// The integer midpoint of the rectangle.
    pub fn center(&self) -> (c: (i32, i32))
        ensures
            (c.0 as int, c.1 as int) == self.spec_center(),
    {
        (midpoint(self.x1, self.x2), midpoint(self.y1, self.y2))
    }
}

/// The overlap test does not depend on the order of its operands.
pub proof fn lemma_intersect_symmetric(a: Rect, b: Rect)
    ensures
        a.spec_intersect(b) == b.spec_intersect(a),
{
}

/// The center of a rectangle built from an origin `(x, y)` and a size
/// `(w, h)` is `((2x + w) / 2, (2y + h) / 2)`, rounded down.
pub proof fn lemma_center_of_new(x: i32, y: i32, w: i32, h: i32)
    requires
        w > 0,
        h > 0,
        x + w <= i32::MAX,
        y + h <= i32::MAX,
    ensures
        Rect::spec_new(x, y, w, h).spec_center() == ((2 * x + w) / 2, (2 * y + h) / 2),
{
}

/// The center of a well-formed rectangle lies between its near edge
/// (inclusive) and its far edge (exclusive) on each axis.
pub proof fn lemma_center_within(r: Rect)
    requires
        r.wf(),
    ensures
        r.x1 <= r.spec_center().0 < r.x2,
        r.y1 <= r.spec_center().1 < r.y2,
{
}

} // verus!
