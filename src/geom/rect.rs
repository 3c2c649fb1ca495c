//! Axis-aligned rectangles.
use vstd::prelude::*;
use super::point::Point;

verus! {

/// The rectangle with corner `(x, y)`, width `w` and height `h`.
#[derive(Clone, Copy, Debug, PartialEq, Eq, Structural)]
pub struct Rect {
    pub x: i64,
    pub y: i64,
    pub w: i64,
    pub h: i64,
}

impl Rect {
    /// Whether `p` lies in the rectangle, its edges included.
    pub fn contains_point(&self, p: Point) -> (r: bool)
        ensures
            r == (self.x <= p.x <= self.x + self.w && self.y <= p.y <= self.y + self.h),
    {
        let px = p.x as i128;
        let py = p.y as i128;
        px >= self.x as i128 && py >= self.y as i128 && px <= self.x as i128 + self.w as i128
            && py <= self.y as i128 + self.h as i128
    }
}

} // verus!
