use vstd::prelude::*;

verus! {

/// Width of the play field.
pub const SCREEN_WIDTH: i64 = 800;

/// Height of the play field.
pub const SCREEN_HEIGHT: i64 = 600;

/// A point of the play field, in whole pixels, with the origin at the
/// bottom-left corner and `y` growing upwards.
#[derive(Clone, Copy, Debug, PartialEq, Eq, Structural)]
pub struct Point {
    pub x: i64,
    pub y: i64,
}

impl Point {
    /// The same point with the vertical axis flipped, for a screen whose
    /// origin is the top-left corner.
    pub fn flipped(self) -> (r: Point)
        requires
            SCREEN_HEIGHT - self.y <= i64::MAX,
        ensures
            r.x == self.x,
            r.y == SCREEN_HEIGHT - self.y,
    {
        Point { x: self.x, y: SCREEN_HEIGHT - self.y }
    }
}

/// An axis-aligned rectangle: `(x, y)` is its lower-left corner.
#[derive(Clone, Copy, Debug, PartialEq, Eq, Structural)]
pub struct Rect {
    pub x: i64,
    pub y: i64,
    pub w: i64,
    pub h: i64,
}

/// The open intervals `(a, a + wa)` and `(b, b + wb)` share a point.
pub open spec fn spans_meet(a: int, wa: int, b: int, wb: int) -> bool {
    a < b + wb && b < a + wa
}

impl Rect {
    /// The two rectangles share a region of non-zero area.
    pub open spec fn meets(self, o: Rect) -> bool {
        spans_meet(self.x as int, self.w as int, o.x as int, o.w as int)
            && spans_meet(self.y as int, self.h as int, o.y as int, o.h as int)
    }

    /// Whether the two rectangles overlap with non-zero area.
    pub fn overlaps(&self, other: &Rect) -> (r: bool)
        requires
            i64::MIN <= self.x + self.w <= i64::MAX,
            i64::MIN <= self.y + self.h <= i64::MAX,
            i64::MIN <= other.x + other.w <= i64::MAX,
            i64::MIN <= other.y + other.h <= i64::MAX,
        ensures
            r == self.meets(*other),
    {
        self.x < other.x + other.w && other.x < self.x + self.w && self.y < other.y + other.h
            && other.y < self.y + self.h
    }
}

} // verus!
