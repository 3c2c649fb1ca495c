//! Circles, used as targets of containment and intersection queries.
use vstd::prelude::*;
use super::point::Point;
use super::{in_range, dist_squared, spec_dist_squared, lemma_product_bound, COORD_LIMIT};

verus! {

/// The circle with center `(x, y)` and radius `r`.
#[derive(Clone, Copy, Debug, PartialEq, Eq, Structural)]
pub struct Circle {
    pub x: i64,
    pub y: i64,
    pub r: i64,
}

impl Circle {
    /// Whether `p` lies within the circle, its boundary included: its distance from the
    /// center is at most `r`.
    pub fn contains_point(&self, p: &Point) -> (res: bool)
        requires
            in_range(*p),
            in_range(self.center_spec()),
            -COORD_LIMIT <= self.r <= COORD_LIMIT,
        ensures
            res == (self.r >= 0 && spec_dist_squared(*p, self.center_spec()) <= self.r * self.r),
    {
        let r = self.r as i128;
        proof {
            lemma_product_bound(r as int, r as int);
        }
        r >= 0 && dist_squared(p, &self.center()) <= r * r
    }

    /// Whether the two circles overlap: the distance between the centers is less than
    /// the sum of the radii.
    pub fn intersects_circle(&self, other: Circle) -> (res: bool)
        requires
            in_range(self.center_spec()),
            in_range(other.center_spec()),
            -COORD_LIMIT <= self.r <= COORD_LIMIT,
            -COORD_LIMIT <= other.r <= COORD_LIMIT,
        ensures
            res == (self.r + other.r > 0 && spec_dist_squared(self.center_spec(), other.center_spec())
                < (self.r + other.r) * (self.r + other.r)),
    {
        let d2 = dist_squared(&self.center(), &other.center());
        let rs = self.r as i128 + other.r as i128;
        proof {
            lemma_product_bound(rs as int, rs as int);
        }
        rs > 0 && d2 < rs * rs
    }

    pub open spec fn center_spec(&self) -> Point {
        Point { x: self.x, y: self.y }
    }

    pub fn center(&self) -> (p: Point)
        ensures
            p == self.center_spec(),
    {
        Point::new(self.x, self.y)
    }
}

} // verus!
