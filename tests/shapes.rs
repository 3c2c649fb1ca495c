use sketchkit::fractal::{fractal_line, fractal_path};
use sketchkit::geom::point::Point;
use sketchkit::random::Random;
use sketchkit::shapes::{polygon, splat, splat_points, star, Lobe, Polar};
use sketchkit::smooth::{multi_curve, multi_loop, Anchor, PathCmd};

fn end_of<P: Copy>(c: &PathCmd<P>) -> Anchor<P> {
    match c {
        PathCmd::MoveTo(a) => *a,
        PathCmd::LineTo(a) => *a,
        PathCmd::QuadTo(_, a) => *a,
    }
}

#[test]
fn square_outline_is_closed() {
    let v = polygon(10.0_f64, 4);
    assert_eq!(v.len(), 5);
    for (i, p) in v.iter().take(4).enumerate() {
        assert_eq!(p.radius, 10.0);
        assert_eq!(p.step, i as i64);
        assert_eq!(p.steps, 4);
    }
    assert_eq!(v[4], v[0]);
}

#[test]
fn five_point_star_alternates() {
    let v = star(4.0_f64, 10.0_f64, 5);
    assert_eq!(v.len(), 11);
    for (i, p) in v.iter().take(10).enumerate() {
        assert_eq!(p.step, i as i64);
        assert_eq!(p.steps, 10);
        assert_eq!(p.radius, if i % 2 == 0 { 10.0 } else { 4.0 });
    }
    assert_eq!(v[10], v[0]);
}

#[test]
fn splat_lobes_and_closure() {
    let lobes = vec![Lobe { shoulder: 8, peak: 12 }, Lobe { shoulder: 7, peak: 9 }];
    let pts = splat_points(3, &lobes);
    assert_eq!(pts.len(), 10);
    assert_eq!(pts[0], Polar { step: -13, steps: 40, radius: 3 });
    assert_eq!(pts[3], Polar { step: 5, steps: 40, radius: 12 });
    assert_eq!(pts[8], Polar { step: 25, steps: 40, radius: 9 });
    assert_eq!(pts[9], Polar { step: 33, steps: 40, radius: 7 });
    let path = splat(3, &lobes);
    assert_eq!(path.len(), 11);
    assert_eq!(end_of(&path[0]), end_of(&path[10]));
}

#[test]
fn loop_ends_where_it_starts() {
    for n in 2..9 {
        let pts: Vec<(i32, i32)> = (0..n).map(|i| (i * 3, i * i)).collect();
        let path = multi_loop(&pts);
        assert_eq!(path.len(), pts.len() + 1);
        assert!(matches!(path[0], PathCmd::MoveTo(_)));
        assert_eq!(end_of(&path[0]), end_of(&path[path.len() - 1]));
        assert_eq!(end_of(&path[0]), Anchor::Mid(pts[n as usize - 1], pts[0]));
    }
}

#[test]
fn open_curve_runs_through_midpoints() {
    let pts = vec![(0, 0), (4, 0), (4, 4), (0, 4)];
    let path = multi_curve(&pts);
    assert_eq!(
        path,
        vec![
            PathCmd::MoveTo(Anchor::At((0, 0))),
            PathCmd::LineTo(Anchor::Mid((0, 0), (4, 0))),
            PathCmd::QuadTo((4, 0), Anchor::Mid((4, 0), (4, 4))),
            PathCmd::QuadTo((4, 4), Anchor::Mid((4, 4), (0, 4))),
            PathCmd::LineTo(Anchor::At((0, 4))),
        ]
    );
}

#[test]
fn fractal_three_rounds_has_nine_points() {
    let mut rng = Random::from_seed(5);
    let path = fractal_line(&mut rng, Point::new(0, 0), Point::new(100, 50), &vec![30, 20, 10]);
    assert_eq!(path.len(), 9);
    assert_eq!(path[0], Point::new(0, 0));
    assert_eq!(path[8], Point::new(800, 400));
}

#[test]
fn fractal_without_displacement_is_straight() {
    let mut rng = Random::from_seed(5);
    let path = fractal_line(&mut rng, Point::new(0, 0), Point::new(8, 16), &vec![0, 0, 0]);
    assert_eq!(path.len(), 9);
    for (i, p) in path.iter().enumerate() {
        assert_eq!(*p, Point::new(8 * i as i64, 16 * i as i64));
    }
}

#[test]
fn fractal_round_keeps_points_and_displaces_midpoints() {
    let jitter = vec![Point::new(1, -1), Point::new(0, 2), Point::new(-3, 0)];
    let path = fractal_path(Point::new(0, 0), Point::new(4, 0), &jitter, 2);
    // one round: (0,0) (5,-1) (8,0); two rounds in quarter units
    assert_eq!(
        path,
        vec![
            Point::new(0, 0),
            Point::new(5, 1),
            Point::new(10, -2),
            Point::new(10, -1),
            Point::new(16, 0),
        ]
    );
}

#[test]
fn fractal_jitter_stays_within_offsets() {
    let mut a = Random::from_seed(11);
    let mut b = Random::from_seed(11);
    let p = fractal_line(&mut a, Point::new(-5, 3), Point::new(5, 3), &vec![2, 1]);
    let q = fractal_line(&mut b, Point::new(-5, 3), Point::new(5, 3), &vec![2, 1]);
    assert_eq!(p, q);
    // the first midpoint, (0, 6) in half units displaced by at most 2, then doubled
    let m = p[2];
    assert_eq!(m.x % 2, 0);
    assert_eq!(m.y % 2, 0);
    assert!(m.x.abs() <= 4 && (m.y - 12).abs() <= 4);
    assert_eq!(p[0], Point::new(-20, 12));
    assert_eq!(p[4], Point::new(20, 12));
}

#[test]
fn fractal_displaced_only_in_first_round_is_two_straight_runs() {
    let mut rng = Random::from_seed(8);
    let q = fractal_line(&mut rng, Point::new(0, 0), Point::new(16, 0), &vec![3, 0, 0]);
    assert_eq!(q.len(), 9);
    let m = q[4];
    // the middle point is (8, 0) displaced by at most 3, in eighths
    assert_eq!(m.x % 4, 0);
    assert_eq!(m.y % 4, 0);
    assert!((m.x - 64).abs() <= 12 && m.y.abs() <= 12);
    for i in 0..=4i64 {
        let a = q[i as usize];
        assert_eq!(4 * a.x, q[0].x * (4 - i) + m.x * i);
        assert_eq!(4 * a.y, q[0].y * (4 - i) + m.y * i);
        let b = q[4 + i as usize];
        assert_eq!(4 * b.x, m.x * (4 - i) + q[8].x * i);
        assert_eq!(4 * b.y, m.y * (4 - i) + q[8].y * i);
    }
}
