//! The geometry kernel: exact integer computations on points and segments.
//!
//! Coordinates given to these functions lie within `COORD_LIMIT` of the origin, so
//! that every product they form is exact.
use vstd::prelude::*;

pub mod circle;
pub mod point;
pub mod rect;

use self::point::Point;

verus! {

/// The largest coordinate magnitude the kernel computes with exactly.
pub const COORD_LIMIT: i64 = 0x8000_0000;

pub open spec fn in_range(p: Point) -> bool {
    -COORD_LIMIT <= p.x <= COORD_LIMIT && -COORD_LIMIT <= p.y <= COORD_LIMIT
}

pub open spec fn spec_dot(p0: Point, p1: Point, p2: Point, p3: Point) -> int {
    (p1.x - p0.x) * (p3.x - p2.x) + (p1.y - p0.y) * (p3.y - p2.y)
}

pub open spec fn spec_dist_squared(p0: Point, p1: Point) -> int {
    (p1.x - p0.x) * (p1.x - p0.x) + (p1.y - p0.y) * (p1.y - p0.y)
}

proof fn lemma_product_bound(a: int, b: int)
    requires
        -2 * COORD_LIMIT <= a <= 2 * COORD_LIMIT,
        -2 * COORD_LIMIT <= b <= 2 * COORD_LIMIT,
    ensures
        -0x4_0000_0000_0000_0000 <= a * b <= 0x4_0000_0000_0000_0000,
{
    assert(-0x4_0000_0000_0000_0000 <= a * b <= 0x4_0000_0000_0000_0000) by (nonlinear_arith)
        requires
            -0x1_0000_0000 <= a <= 0x1_0000_0000,
            -0x1_0000_0000 <= b <= 0x1_0000_0000,
    ;
}

/// The dot product of the vectors `p0 -> p1` and `p2 -> p3`.
pub fn dot_product(p0: &Point, p1: &Point, p2: &Point, p3: &Point) -> (r: i128)
    requires
        in_range(*p0),
        in_range(*p1),
        in_range(*p2),
        in_range(*p3),
    ensures
        r == spec_dot(*p0, *p1, *p2, *p3),
{
    let dx0 = p1.x as i128 - p0.x as i128;
    let dy0 = p1.y as i128 - p0.y as i128;
    let dx1 = p3.x as i128 - p2.x as i128;
    let dy1 = p3.y as i128 - p2.y as i128;
    proof {
        lemma_product_bound(dx0 as int, dx1 as int);
        lemma_product_bound(dy0 as int, dy1 as int);
    }
    dx0 * dx1 + dy0 * dy1
}

/// The squared distance between two points.
pub fn dist_squared(p0: &Point, p1: &Point) -> (r: i128)
    requires
        in_range(*p0),
        in_range(*p1),
    ensures
        r == spec_dist_squared(*p0, *p1),
        r >= 0,
{
    let dx = p1.x as i128 - p0.x as i128;
    let dy = p1.y as i128 - p0.y as i128;
    proof {
        lemma_product_bound(dx as int, dx as int);
        lemma_product_bound(dy as int, dy as int);
        assert(dx * dx >= 0 && dy * dy >= 0) by (nonlinear_arith);
    }
    dx * dx + dy * dy
}

/// A point given exactly by rational coordinates `(x_num / den, y_num / den)`.
#[derive(Clone, Copy, Debug, PartialEq, Eq, Structural)]
pub struct RatPoint {
    pub x_num: i128,
    pub y_num: i128,
    pub den: i128,
}

/// The largest magnitude of the numerator and denominator of a blend parameter.
pub const T_LIMIT: i64 = 0x1_0000;

/// `|a * b| <= x * y` from `|a| <= x` and `|b| <= y`.
proof fn lemma_mul_bound(a: int, b: int, x: int, y: int)
    requires
        -x <= a <= x,
        -y <= b <= y,
    ensures
        -(x * y) <= a * b <= x * y,
{
    assert(-(x * y) <= a * b <= x * y) by (nonlinear_arith)
        requires
            -x <= a <= x,
            -y <= b <= y,
    ;
}

/// The point at `t = t_num / t_den` on the way from `p0` to `p1`: `p0` at 0, `p1` at 1,
/// and beyond them outside `[0, 1]`. The result has denominator `t_den`.
pub open spec fn spec_lerp_point(p0: Point, p1: Point, t_num: int, t_den: int) -> (int, int) {
    let u = t_den - t_num;
    (p0.x * u + p1.x * t_num, p0.y * u + p1.y * t_num)
}

/// The quadratic Bernstein blend of three points at `t = t_num / t_den`, over the
/// denominator `t_den^2`.
pub open spec fn spec_quadratic_point(p0: Point, p1: Point, p2: Point, t_num: int, t_den: int) -> (int, int) {
    let u = t_den - t_num;
    let m0 = u * u;
    let m1 = 2 * u * t_num;
    let m2 = t_num * t_num;
    (m0 * p0.x + m1 * p1.x + m2 * p2.x, m0 * p0.y + m1 * p1.y + m2 * p2.y)
}

/// The cubic Bernstein blend of four points at `t = t_num / t_den`, over the
/// denominator `t_den^3`.
pub open spec fn spec_bezier_point(p0: Point, p1: Point, p2: Point, p3: Point, t_num: int, t_den: int) -> (int, int) {
    let u = t_den - t_num;
    let m0 = u * u * u;
    let m1 = 3 * u * u * t_num;
    let m2 = 3 * u * t_num * t_num;
    let m3 = t_num * t_num * t_num;
    (
        m0 * p0.x + m1 * p1.x + m2 * p2.x + m3 * p3.x,
        m0 * p0.y + m1 * p1.y + m2 * p2.y + m3 * p3.y,
    )
}

pub open spec fn t_in_range(t_num: i64, t_den: i64) -> bool {
    0 < t_den <= T_LIMIT && -T_LIMIT <= t_num <= T_LIMIT
}

/// The point at `t = t_num / t_den` from `p0` to `p1`; `t` is not clamped.
pub fn lerp_point(p0: Point, p1: Point, t_num: i64, t_den: i64) -> (r: RatPoint)
    requires
        in_range(p0),
        in_range(p1),
        t_in_range(t_num, t_den),
    ensures
        (r.x_num as int, r.y_num as int) == spec_lerp_point(p0, p1, t_num as int, t_den as int),
        r.den == t_den,
{
    let t = t_num as i128;
    let u = t_den as i128 - t;
    proof {
        lemma_mul_bound(p0.x as int, u as int, COORD_LIMIT as int, 2 * T_LIMIT);
        lemma_mul_bound(p1.x as int, t as int, COORD_LIMIT as int, T_LIMIT as int);
        lemma_mul_bound(p0.y as int, u as int, COORD_LIMIT as int, 2 * T_LIMIT);
        lemma_mul_bound(p1.y as int, t as int, COORD_LIMIT as int, T_LIMIT as int);
    }
    RatPoint {
        x_num: p0.x as i128 * u + p1.x as i128 * t,
        y_num: p0.y as i128 * u + p1.y as i128 * t,
        den: t_den as i128,
    }
}

/// The quadratic blend of `p0`, `p1`, `p2` at `t = t_num / t_den`; `t` is not clamped.
pub fn quadratic_point(p0: Point, p1: Point, p2: Point, t_num: i64, t_den: i64) -> (r: RatPoint)
    requires
        in_range(p0),
        in_range(p1),
        in_range(p2),
        t_in_range(t_num, t_den),
    ensures
        (r.x_num as int, r.y_num as int) == spec_quadratic_point(p0, p1, p2, t_num as int, t_den as int),
        r.den == t_den * t_den,
{
    let t = t_num as i128;
    let d = t_den as i128;
    let u = d - t;
    let ghost lim: int = 2 * T_LIMIT;
    proof {
        lemma_mul_bound(u as int, u as int, lim, lim);
        lemma_mul_bound(u as int, t as int, lim, lim);
        lemma_mul_bound(t as int, t as int, lim, lim);
        lemma_mul_bound(d as int, d as int, lim, lim);
    }
    let m0 = u * u;
    let ut = u * t;
    let m1 = 2 * ut;
    let m2 = t * t;
    proof {
        assert(m1 == 2 * u * t) by (nonlinear_arith)
            requires
                m1 == 2 * ut,
                ut == u * t,
        ;
        let mm = 2 * lim * lim;
        lemma_mul_bound(m0 as int, p0.x as int, mm, COORD_LIMIT as int);
        lemma_mul_bound(m1 as int, p1.x as int, mm, COORD_LIMIT as int);
        lemma_mul_bound(m2 as int, p2.x as int, mm, COORD_LIMIT as int);
        lemma_mul_bound(m0 as int, p0.y as int, mm, COORD_LIMIT as int);
        lemma_mul_bound(m1 as int, p1.y as int, mm, COORD_LIMIT as int);
        lemma_mul_bound(m2 as int, p2.y as int, mm, COORD_LIMIT as int);
    }
    RatPoint {
        x_num: m0 * p0.x as i128 + m1 * p1.x as i128 + m2 * p2.x as i128,
        y_num: m0 * p0.y as i128 + m1 * p1.y as i128 + m2 * p2.y as i128,
        den: d * d,
    }
}

/// The cubic Bezier blend of `p0` to `p3` at `t = t_num / t_den`; `t` is not clamped.
pub fn bezier_point(p0: Point, p1: Point, p2: Point, p3: Point, t_num: i64, t_den: i64) -> (r: RatPoint)
    requires
        in_range(p0),
        in_range(p1),
        in_range(p2),
        in_range(p3),
        t_in_range(t_num, t_den),
    ensures
        (r.x_num as int, r.y_num as int) == spec_bezier_point(p0, p1, p2, p3, t_num as int, t_den as int),
        r.den == t_den * t_den * t_den,
{
    let t = t_num as i128;
    let d = t_den as i128;
    let u = d - t;
    let ghost lim: int = 2 * T_LIMIT;
    proof {
        lemma_mul_bound(u as int, u as int, lim, lim);
        lemma_mul_bound(u as int, t as int, lim, lim);
        lemma_mul_bound(t as int, t as int, lim, lim);
        lemma_mul_bound(d as int, d as int, lim, lim);
    }
    let uu = u * u;
    let ut = u * t;
    let tt = t * t;
    let dd = d * d;
    proof {
        lemma_mul_bound(uu as int, u as int, lim * lim, lim);
        lemma_mul_bound(uu as int, t as int, lim * lim, lim);
        lemma_mul_bound(ut as int, t as int, lim * lim, lim);
        lemma_mul_bound(tt as int, t as int, lim * lim, lim);
        lemma_mul_bound(dd as int, d as int, lim * lim, lim);
    }
    let m0 = uu * u;
    let m1 = 3 * (uu * t);
    let m2 = 3 * (ut * t);
    let m3 = tt * t;
    proof {
        let mm = 3 * lim * lim * lim;
        lemma_mul_bound(m0 as int, p0.x as int, mm, COORD_LIMIT as int);
        lemma_mul_bound(m1 as int, p1.x as int, mm, COORD_LIMIT as int);
        lemma_mul_bound(m2 as int, p2.x as int, mm, COORD_LIMIT as int);
        lemma_mul_bound(m3 as int, p3.x as int, mm, COORD_LIMIT as int);
        lemma_mul_bound(m0 as int, p0.y as int, mm, COORD_LIMIT as int);
        lemma_mul_bound(m1 as int, p1.y as int, mm, COORD_LIMIT as int);
        lemma_mul_bound(m2 as int, p2.y as int, mm, COORD_LIMIT as int);
        lemma_mul_bound(m3 as int, p3.y as int, mm, COORD_LIMIT as int);
        assert(m1 == 3 * u * u * t && m2 == 3 * u * t * t) by (nonlinear_arith)
            requires
                m1 == 3 * (uu * t),
                m2 == 3 * (ut * t),
                uu == u * u,
                ut == u * t,
        ;
        assert(m0 == u * u * u && m3 == t * t * t);
    }
    RatPoint {
        x_num: m0 * p0.x as i128 + m1 * p1.x as i128 + m2 * p2.x as i128 + m3 * p3.x as i128,
        y_num: m0 * p0.y as i128 + m1 * p1.y as i128 + m2 * p2.y as i128 + m3 * p3.y as i128,
        den: dd * d,
    }
}

/// Whether the rational number `n / d` lies in `[0, 1]`; never when `d` is zero.
pub open spec fn unit_ratio(n: int, d: int) -> bool {
    (d > 0 && 0 <= n <= d) || (d < 0 && d <= n <= 0)
}

/// The determinant of the two lines through `p0, p1` and `p2, p3` in the form
/// `a x + b y = c`; zero exactly when they are parallel or the same.
pub open spec fn line_det(p0: Point, p1: Point, p2: Point, p3: Point) -> int {
    (p1.y - p0.y) * (p2.x - p3.x) - (p3.y - p2.y) * (p0.x - p1.x)
}

/// `det` times the x coordinate where the two lines meet (Cramer's rule).
pub open spec fn line_x_num(p0: Point, p1: Point, p2: Point, p3: Point) -> int {
    let a1 = p1.y - p0.y;
    let b1 = p0.x - p1.x;
    let c1 = a1 * p0.x + b1 * p0.y;
    let a2 = p3.y - p2.y;
    let b2 = p2.x - p3.x;
    let c2 = a2 * p2.x + b2 * p2.y;
    b2 * c1 - b1 * c2
}

/// `det` times the y coordinate where the two lines meet (Cramer's rule).
pub open spec fn line_y_num(p0: Point, p1: Point, p2: Point, p3: Point) -> int {
    let a1 = p1.y - p0.y;
    let b1 = p0.x - p1.x;
    let c1 = a1 * p0.x + b1 * p0.y;
    let a2 = p3.y - p2.y;
    let b2 = p2.x - p3.x;
    let c2 = a2 * p2.x + b2 * p2.y;
    a1 * c2 - a2 * c1
}

/// Whether the point `(x_num / det, y_num / det)` passes the segment test for
/// `q0 -> q1`: its x ratio or its y ratio along the segment lies in `[0, 1]`.
pub open spec fn within_segment(x_num: int, y_num: int, det: int, q0: Point, q1: Point) -> bool {
    unit_ratio(x_num - q0.x * det, det * (q1.x - q0.x)) || unit_ratio(
        y_num - q0.y * det,
        det * (q1.y - q0.y),
    )
}

/// Where the segments `p0 -> p1` and `p2 -> p3` cross: nothing for parallel or
/// coincident lines, else the meeting point of the lines when it passes the test of
/// `within_segment` for both segments. The coordinates share a positive denominator.
pub open spec fn spec_crossing(p0: Point, p1: Point, p2: Point, p3: Point) -> Option<RatPoint> {
    let det = line_det(p0, p1, p2, p3);
    let xn = line_x_num(p0, p1, p2, p3);
    let yn = line_y_num(p0, p1, p2, p3);
    if det == 0 {
        None
    } else if within_segment(xn, yn, det, p0, p1) && within_segment(xn, yn, det, p2, p3) {
        if det > 0 {
            Some(RatPoint { x_num: xn as i128, y_num: yn as i128, den: det as i128 })
        } else {
            Some(RatPoint { x_num: -xn as i128, y_num: -yn as i128, den: -det as i128 })
        }
    } else {
        None
    }
}

fn ratio_in_unit(n: i128, d: i128) -> (r: bool)
    ensures
        r == unit_ratio(n as int, d as int),
{
    (d > 0 && 0 <= n && n <= d) || (d < 0 && d <= n && n <= 0)
}

/// The point where the segments `p0 -> p1` and `p2 -> p3` cross, if any.
pub fn segment_intersect(p0: Point, p1: Point, p2: Point, p3: Point) -> (r: Option<RatPoint>)
    requires
        in_range(p0),
        in_range(p1),
        in_range(p2),
        in_range(p3),
    ensures
        r == spec_crossing(p0, p1, p2, p3),
{
    let a1 = p1.y as i128 - p0.y as i128;
    let b1 = p0.x as i128 - p1.x as i128;
    let a2 = p3.y as i128 - p2.y as i128;
    let b2 = p2.x as i128 - p3.x as i128;
    let x0 = p0.x as i128;
    let y0 = p0.y as i128;
    let x2 = p2.x as i128;
    let y2 = p2.y as i128;
    proof {
        lemma_product_bound(a1 as int, x0 as int);
        lemma_product_bound(b1 as int, y0 as int);
        lemma_product_bound(a2 as int, x2 as int);
        lemma_product_bound(b2 as int, y2 as int);
        lemma_product_bound(a1 as int, b2 as int);
        lemma_product_bound(a2 as int, b1 as int);
    }
    let c1 = a1 * x0 + b1 * y0;
    let c2 = a2 * x2 + b2 * y2;
    let det = a1 * b2 - a2 * b1;
    if det == 0 {
        return None;
    }
    proof {
        lemma_big_product_bound(b2 as int, c1 as int);
        lemma_big_product_bound(b1 as int, c2 as int);
        lemma_big_product_bound(a1 as int, c2 as int);
        lemma_big_product_bound(a2 as int, c1 as int);
    }
    let xn = b2 * c1 - b1 * c2;
    let yn = a1 * c2 - a2 * c1;
    let dx0 = p1.x as i128 - x0;
    let dy0 = p1.y as i128 - y0;
    let dx1 = p3.x as i128 - x2;
    let dy1 = p3.y as i128 - y2;
    proof {
        lemma_big_product_bound(x0 as int, det as int);
        lemma_big_product_bound(y0 as int, det as int);
        lemma_big_product_bound(x2 as int, det as int);
        lemma_big_product_bound(y2 as int, det as int);
        lemma_big_product_bound(dx0 as int, det as int);
        lemma_big_product_bound(dy0 as int, det as int);
        lemma_big_product_bound(dx1 as int, det as int);
        lemma_big_product_bound(dy1 as int, det as int);
    }
    let on_first = ratio_in_unit(xn - x0 * det, det * dx0) || ratio_in_unit(yn - y0 * det, det * dy0);
    let on_second = ratio_in_unit(xn - x2 * det, det * dx1) || ratio_in_unit(yn - y2 * det, det * dy1);
    if on_first && on_second {
        if det > 0 {
            Some(RatPoint { x_num: xn, y_num: yn, den: det })
        } else {
            Some(RatPoint { x_num: -xn, y_num: -yn, den: -det })
        }
    } else {
        None
    }
}

/// Whether `c` lies on the segment `q0 -> q1`: on its line, and between its ends on
/// each axis.
pub open spec fn on_segment(c: RatPoint, q0: Point, q1: Point) -> bool {
    &&& c.den > 0
    &&& (q1.x - q0.x) * (c.y_num - q0.y * c.den) == (q1.y - q0.y) * (c.x_num - q0.x * c.den)
    &&& (c.x_num - q0.x * c.den) * (c.x_num - q1.x * c.den) <= 0
    &&& (c.y_num - q0.y * c.den) * (c.y_num - q1.y * c.den) <= 0
}

/// On a line through `q0` and `q1`, a point whose ratio along one axis lies in
/// `[0, 1]` lies between the ends on both axes. The point is `(xn / det, yn / det)`.
proof fn lemma_ratio_gives_box(xn: int, yn: int, det: int, q0: Point, q1: Point)
    requires
        det != 0,
        (q1.y - q0.y) * (xn - q0.x * det) == (q1.x - q0.x) * (yn - q0.y * det),
        within_segment(xn, yn, det, q0, q1),
    ensures
        (xn - q0.x * det) * (xn - q1.x * det) <= 0,
        (yn - q0.y * det) * (yn - q1.y * det) <= 0,
{
    let dx = q1.x - q0.x;
    let dy = q1.y - q0.y;
    let u = xn - q0.x * det;
    let v = yn - q0.y * det;
    assert(xn - q1.x * det == u - det * dx) by (nonlinear_arith)
        requires
            u == xn - q0.x * det,
            dx == q1.x - q0.x,
    ;
    assert(yn - q1.y * det == v - det * dy) by (nonlinear_arith)
        requires
            v == yn - q0.y * det,
            dy == q1.y - q0.y,
    ;
    if unit_ratio(u, det * dx) {
        let d = det * dx;
        assert(u * (u - d) <= 0) by (nonlinear_arith)
            requires
                (d > 0 && 0 <= u <= d) || (d < 0 && d <= u <= 0),
        ;
        assert(dx != 0) by (nonlinear_arith)
            requires
                d == det * dx,
                d != 0,
        ;
        assert(v * (v - det * dy) <= 0) by (nonlinear_arith)
            requires
                dy * u == dx * v,
                u * (u - det * dx) <= 0,
                dx != 0,
        ;
    } else {
        let d = det * dy;
        assert(v * (v - d) <= 0) by (nonlinear_arith)
            requires
                (d > 0 && 0 <= v <= d) || (d < 0 && d <= v <= 0),
        ;
        assert(dy != 0) by (nonlinear_arith)
            requires
                d == det * dy,
                d != 0,
        ;
        assert(u * (u - det * dx) <= 0) by (nonlinear_arith)
            requires
                dy * u == dx * v,
                v * (v - det * dy) <= 0,
                dy != 0,
        ;
    }
}

/// Cramer's solution lies on both lines.
proof fn lemma_on_both_lines(p0: Point, p1: Point, p2: Point, p3: Point)
    ensures
        ({
            let det = line_det(p0, p1, p2, p3);
            let xn = line_x_num(p0, p1, p2, p3);
            let yn = line_y_num(p0, p1, p2, p3);
            &&& (p1.y - p0.y) * (xn - p0.x * det) == (p1.x - p0.x) * (yn - p0.y * det)
            &&& (p3.y - p2.y) * (xn - p2.x * det) == (p3.x - p2.x) * (yn - p2.y * det)
        }),
{
    let a1 = p1.y - p0.y;
    let b1 = p0.x - p1.x;
    let c1 = a1 * p0.x + b1 * p0.y;
    let a2 = p3.y - p2.y;
    let b2 = p2.x - p3.x;
    let c2 = a2 * p2.x + b2 * p2.y;
    let det = a1 * b2 - a2 * b1;
    let xn = b2 * c1 - b1 * c2;
    let yn = a1 * c2 - a2 * c1;
    assert(a1 * xn + b1 * yn == c1 * det) by (nonlinear_arith)
        requires
            det == a1 * b2 - a2 * b1,
            xn == b2 * c1 - b1 * c2,
            yn == a1 * c2 - a2 * c1,
    ;
    assert(a2 * xn + b2 * yn == c2 * det) by (nonlinear_arith)
        requires
            det == a1 * b2 - a2 * b1,
            xn == b2 * c1 - b1 * c2,
            yn == a1 * c2 - a2 * c1,
    ;
    assert(a1 * (xn - p0.x * det) == -b1 * (yn - p0.y * det)) by (nonlinear_arith)
        requires
            a1 * xn + b1 * yn == c1 * det,
            c1 == a1 * p0.x + b1 * p0.y,
    ;
    assert(a2 * (xn - p2.x * det) == -b2 * (yn - p2.y * det)) by (nonlinear_arith)
        requires
            a2 * xn + b2 * yn == c2 * det,
            c2 == a2 * p2.x + b2 * p2.y,
    ;
}

/// Flipping the signs of a point's numerators and denominator keeps it on a segment.
proof fn lemma_on_segment_signs(xn: int, yn: int, det: int, q0: Point, q1: Point)
    requires
        (q1.y - q0.y) * (xn - q0.x * det) == (q1.x - q0.x) * (yn - q0.y * det),
        (xn - q0.x * det) * (xn - q1.x * det) <= 0,
        (yn - q0.y * det) * (yn - q1.y * det) <= 0,
    ensures
        (q1.y - q0.y) * (-xn - q0.x * -det) == (q1.x - q0.x) * (-yn - q0.y * -det),
        (-xn - q0.x * -det) * (-xn - q1.x * -det) <= 0,
        (-yn - q0.y * -det) * (-yn - q1.y * -det) <= 0,
{
    assert((q1.y - q0.y) * (-xn - q0.x * -det) == -((q1.y - q0.y) * (xn - q0.x * det)))
        by (nonlinear_arith);
    assert((q1.x - q0.x) * (-yn - q0.y * -det) == -((q1.x - q0.x) * (yn - q0.y * det)))
        by (nonlinear_arith);
    assert((-xn - q0.x * -det) * (-xn - q1.x * -det) == (xn - q0.x * det) * (xn - q1.x * det))
        by (nonlinear_arith);
    assert((-yn - q0.y * -det) * (-yn - q1.y * -det) == (yn - q0.y * det) * (yn - q1.y * det))
        by (nonlinear_arith);
}

/// The segment test is sound: a crossing that `segment_intersect` reports lies on both
/// segments, so testing one axis ratio per segment accepts no point off them.
pub proof fn lemma_crossing_on_segments(p0: Point, p1: Point, p2: Point, p3: Point)
    requires
        in_range(p0),
        in_range(p1),
        in_range(p2),
        in_range(p3),
        spec_crossing(p0, p1, p2, p3) is Some,
    ensures
        on_segment(spec_crossing(p0, p1, p2, p3)->0, p0, p1),
        on_segment(spec_crossing(p0, p1, p2, p3)->0, p2, p3),
{
    let det = line_det(p0, p1, p2, p3);
    let xn = line_x_num(p0, p1, p2, p3);
    let yn = line_y_num(p0, p1, p2, p3);
    lemma_crossing_fits(p0, p1, p2, p3);
    lemma_on_both_lines(p0, p1, p2, p3);
    lemma_ratio_gives_box(xn, yn, det, p0, p1);
    lemma_ratio_gives_box(xn, yn, det, p2, p3);
    if det < 0 {
        lemma_on_segment_signs(xn, yn, det, p0, p1);
        lemma_on_segment_signs(xn, yn, det, p2, p3);
    }
}

/// The numerators and the determinant of the crossing fit in `i128`.
proof fn lemma_crossing_fits(p0: Point, p1: Point, p2: Point, p3: Point)
    requires
        in_range(p0),
        in_range(p1),
        in_range(p2),
        in_range(p3),
    ensures
        -0x10_0000_0000_0000_0000 <= line_det(p0, p1, p2, p3) <= 0x10_0000_0000_0000_0000,
        -0x100_0000_0000_0000_0000_0000_0000 <= line_x_num(p0, p1, p2, p3) <= 0x100_0000_0000_0000_0000_0000_0000,
        -0x100_0000_0000_0000_0000_0000_0000 <= line_y_num(p0, p1, p2, p3) <= 0x100_0000_0000_0000_0000_0000_0000,
{
    let a1 = p1.y - p0.y;
    let b1 = p0.x - p1.x;
    let a2 = p3.y - p2.y;
    let b2 = p2.x - p3.x;
    lemma_product_bound(a1, p0.x as int);
    lemma_product_bound(b1, p0.y as int);
    lemma_product_bound(a2, p2.x as int);
    lemma_product_bound(b2, p2.y as int);
    lemma_product_bound(a1, b2);
    lemma_product_bound(a2, b1);
    let c1 = a1 * p0.x + b1 * p0.y;
    let c2 = a2 * p2.x + b2 * p2.y;
    lemma_big_product_bound(b2, c1);
    lemma_big_product_bound(b1, c2);
    lemma_big_product_bound(a1, c2);
    lemma_big_product_bound(a2, c1);
}

proof fn lemma_big_product_bound(a: int, b: int)
    requires
        -0x1_0000_0000 <= a <= 0x1_0000_0000,
        -0x10_0000_0000_0000_0000 <= b <= 0x10_0000_0000_0000_0000,
    ensures
        -0x10_0000_0000_0000_0000_0000_0000 <= a * b <= 0x10_0000_0000_0000_0000_0000_0000,
{
    assert(-0x10_0000_0000_0000_0000_0000_0000 <= a * b <= 0x10_0000_0000_0000_0000_0000_0000)
        by (nonlinear_arith)
        requires
            -0x1_0000_0000 <= a <= 0x1_0000_0000,
            -0x10_0000_0000_0000_0000 <= b <= 0x10_0000_0000_0000_0000,
    ;
}

} // verus!
