//! Points on the integer grid.
use vstd::prelude::*;

verus! {

/// A point with integer coordinates. Points are values: every transform returns a new one.
#[derive(Clone, Copy, Debug, PartialEq, Eq, Structural)]
pub struct Point {
    pub x: i64,
    pub y: i64,
}

impl Point {
    pub fn new(x: i64, y: i64) -> (p: Point)
        ensures
            p == (Point { x, y }),
    {
        Point { x, y }
    }

    /// This point moved by `(x, y)`.
    pub fn translate(&self, x: i64, y: i64) -> (p: Point)
        requires
            i64::MIN <= self.x + x <= i64::MAX,
            i64::MIN <= self.y + y <= i64::MAX,
        ensures
            p.x == self.x + x,
            p.y == self.y + y,
    {
        Point::new(self.x + x, self.y + y)
    }

    /// This point with its coordinates multiplied by `scale_x` and `scale_y`.
    pub fn scale(&self, scale_x: i64, scale_y: i64) -> (p: Point)
        requires
            i64::MIN <= self.x * scale_x <= i64::MAX,
            i64::MIN <= self.y * scale_y <= i64::MAX,
        ensures
            p.x == self.x * scale_x,
            p.y == self.y * scale_y,
    {
        Point::new(self.x * scale_x, self.y * scale_y)
    }
}

} // verus!
