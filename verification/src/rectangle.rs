//! An axis-aligned rectangle in milli-units, with an overlap test.
use vstd::prelude::*;

verus! {

/// An axis-aligned rectangle: origin corner and extent, in milli-units.
#[derive(Debug, Clone, Copy, PartialEq, Eq, Structural)]
pub struct Rectangle {
    pub x: i64,
    pub y: i64,
    pub width: i64,
    pub height: i64,
}

/// Two rectangles overlap when each starts before the other ends, on
/// both axes.
pub open spec fn overlaps(a: Rectangle, b: Rectangle) -> bool {
    &&& b.x < a.x + a.width
    &&& a.x < b.x + b.width
    &&& b.y < a.y + a.height
    &&& a.y < b.y + b.height
}

impl Rectangle {
    /// Builds a rectangle from its origin corner and extent.
    pub fn new(x: i64, y: i64, width: i64, height: i64) -> (r: Rectangle)
        ensures
            r == (Rectangle { x, y, width, height }),
    {
        Rectangle { x, y, width, height }
    }

    /// The two rectangles overlap.
    pub fn hit_test(&self, other: &Rectangle) -> (r: bool)
        requires
            i64::MIN <= self.x + self.width <= i64::MAX,
            i64::MIN <= self.y + self.height <= i64::MAX,
            i64::MIN <= other.x + other.width <= i64::MAX,
            i64::MIN <= other.y + other.height <= i64::MAX,
        ensures
            r == overlaps(*self, *other),
    {
        let horizontal = (other.x < self.x + self.width) && (self.x < other.x + other.width);
        let vertical = (other.y < self.y + self.height) && (self.y < other.y + other.height);
        horizontal && vertical
    }
}

} // verus!
