use sketchkit::geom::circle::Circle;
use sketchkit::geom::point::Point;
use sketchkit::geom::rect::Rect;
use sketchkit::geom::{bezier_point, dist_squared, dot_product, lerp_point, quadratic_point, segment_intersect, RatPoint};
use sketchkit::math::clamp;

fn at(c: RatPoint) -> (i128, i128) {
    assert!(c.den > 0);
    assert_eq!(c.x_num % c.den, 0);
    assert_eq!(c.y_num % c.den, 0);
    (c.x_num / c.den, c.y_num / c.den)
}

#[test]
fn test_intersect() {
    let p0 = Point::new(-10, 0);
    let p1 = Point::new(10, 0);
    let p2 = Point::new(0, -10);
    let p3 = Point::new(0, 10);
    assert_eq!(at(segment_intersect(p0, p1, p2, p3).expect("no intersection")), (0, 0));
}

#[test]
fn test_no_intersect() {
    let p0 = Point::new(-10, 0);
    let p1 = Point::new(10, 0);
    let p2 = Point::new(20, -10);
    let p3 = Point::new(20, 10);
    assert_eq!(segment_intersect(p0, p1, p2, p3), None);
}

#[test]
fn parallel_segments_do_not_cross() {
    let r = segment_intersect(Point::new(0, 0), Point::new(10, 10), Point::new(0, 1), Point::new(10, 11));
    assert_eq!(r, None);
    let same = segment_intersect(Point::new(0, 0), Point::new(10, 0), Point::new(2, 0), Point::new(5, 0));
    assert_eq!(same, None);
}

#[test]
fn axis_aligned_near_miss_is_rejected() {
    let r = segment_intersect(Point::new(0, 0), Point::new(10, 0), Point::new(5, 1), Point::new(5, 10));
    assert_eq!(r, None);
}

#[test]
fn crossing_is_exact() {
    let c = segment_intersect(Point::new(0, 0), Point::new(3, 3), Point::new(0, 1), Point::new(1, 0))
        .expect("segments cross");
    assert_eq!(c.x_num * 2, c.den);
    assert_eq!(c.y_num * 2, c.den);
}

#[test]
fn test_new_point() {
    let point = Point::new(0, 0);
    assert_eq!(point.x, 0);
    assert_eq!(point.y, 0);
    let point = Point::new(10, -20);
    assert_eq!(point.x, 10);
    assert_eq!(point.y, -20);
}

#[test]
fn transforms_return_new_points() {
    let p = Point::new(3, -4);
    assert_eq!(p.translate(10, 20), Point::new(13, 16));
    assert_eq!(p.scale(2, -3), Point::new(6, 12));
    assert_eq!(p, Point::new(3, -4));
}

#[test]
fn dot_and_distance() {
    let a = Point::new(10, 10);
    let b = Point::new(13, 14);
    assert_eq!(dist_squared(&a, &b), 25);
    let o = Point::new(0, 0);
    assert_eq!(dot_product(&o, &Point::new(1, 2), &o, &Point::new(3, 4)), 11);
    assert_eq!(dot_product(&o, &Point::new(1, 0), &o, &Point::new(0, 5)), 0);
}

#[test]
fn circle_queries() {
    let c = Circle { x: 0, y: 0, r: 5 };
    assert!(c.contains_point(&Point::new(3, 4)));
    assert!(!c.contains_point(&Point::new(4, 4)));
    assert!(c.intersects_circle(Circle { x: 9, y: 0, r: 5 }));
    assert!(!c.intersects_circle(Circle { x: 10, y: 0, r: 5 }));
    assert_eq!(c.center(), Point::new(0, 0));
}

#[test]
fn rect_contains_edges() {
    let r = Rect { x: 0, y: 0, w: 10, h: 5 };
    assert!(r.contains_point(Point::new(10, 5)));
    assert!(r.contains_point(Point::new(0, 0)));
    assert!(!r.contains_point(Point::new(11, 5)));
    assert!(!r.contains_point(Point::new(5, -1)));
}

#[test]
fn test_clamp() {
    // in range
    assert_eq!(clamp(0, 0, 100), 0);
    assert_eq!(clamp(100, 0, 100), 100);
    // out of range
    assert_eq!(clamp(-50, 0, 100), 0);
    assert_eq!(clamp(110, 0, 100), 100);
    // reversed min/max
    assert_eq!(clamp(-50, 100, 0), 0);
    assert_eq!(clamp(110, 100, 0), 100);
}

#[test]
fn clamp_keeps_inner_values() {
    assert_eq!(clamp(42, 100, 0), 42);
    assert_eq!(clamp(42, 0, 100), 42);
}

fn value(p: RatPoint) -> (f64, f64) {
    (p.x_num as f64 / p.den as f64, p.y_num as f64 / p.den as f64)
}

#[test]
fn lerp_point_extrapolates() {
    let a = Point::new(0, 0);
    let b = Point::new(100, 0);
    assert_eq!(value(lerp_point(a, b, 1, 4)), (25.0, 0.0));
    assert_eq!(value(lerp_point(a, b, 3, 4)), (75.0, 0.0));
    assert_eq!(value(lerp_point(b, a, 1, 4)), (75.0, 0.0));
    assert_eq!(value(lerp_point(a, b, -1, 4)), (-25.0, 0.0));
    assert_eq!(value(lerp_point(a, b, 5, 4)), (125.0, 0.0));
    assert_eq!(lerp_point(a, b, 1, 4), RatPoint { x_num: 100, y_num: 0, den: 4 });
}

#[test]
fn quadratic_and_cubic_blends() {
    let q = quadratic_point(Point::new(0, 0), Point::new(50, 100), Point::new(100, 0), 1, 2);
    assert_eq!(q.den, 4);
    assert_eq!(value(q), (50.0, 50.0));
    let c = bezier_point(Point::new(0, 0), Point::new(0, 100), Point::new(100, 100), Point::new(100, 0), 1, 2);
    assert_eq!(c.den, 8);
    assert_eq!(value(c), (50.0, 75.0));
    let start = bezier_point(Point::new(3, 4), Point::new(0, 100), Point::new(100, 100), Point::new(7, 9), 0, 5);
    assert_eq!(value(start), (3.0, 4.0));
    let end = bezier_point(Point::new(3, 4), Point::new(0, 100), Point::new(100, 100), Point::new(7, 9), 5, 5);
    assert_eq!(value(end), (7.0, 9.0));
}
