//! Curve smoothing: a polyline becomes a path of quadratic segments that runs through
//! the midpoints of its edges and uses its points as control points.
//!
//! Paths are plans over the caller's point type: an anchor is a point or the midpoint
//! of two points, and whoever draws the path evaluates it.
use vstd::prelude::*;

verus! {

/// A place on a path: a given point, or the midpoint of two given points.
#[derive(Clone, Copy, Debug, PartialEq, Eq)]
pub enum Anchor<P> {
    At(P),
    Mid(P, P),
}

/// One command of a path.
#[derive(Clone, Copy, Debug, PartialEq, Eq)]
pub enum PathCmd<P> {
    MoveTo(Anchor<P>),
    LineTo(Anchor<P>),
    /// A quadratic segment from the current place, bent towards `control`, ending at the anchor.
    QuadTo(P, Anchor<P>),
}

/// Where a command leaves the pen.
pub open spec fn cmd_end<P>(c: PathCmd<P>) -> Anchor<P> {
    match c {
        PathCmd::MoveTo(a) => a,
        PathCmd::LineTo(a) => a,
        PathCmd::QuadTo(_, a) => a,
    }
}

/// Whether a path is closed: it starts with a move and ends where that move went.
pub open spec fn is_closed<P>(cmds: Seq<PathCmd<P>>) -> bool {
    &&& cmds.len() >= 2
    &&& cmds[0] is MoveTo
    &&& cmd_end(cmds.last()) == cmd_end(cmds[0])
}

/// The open smoothed path through `s`: from the first point, a line to the first
/// midpoint, a quadratic segment around each inner point to the next midpoint, and a
/// line to the last point.
pub open spec fn curve_cmds<P>(s: Seq<P>) -> Seq<PathCmd<P>> {
    let n = s.len() as int;
    Seq::new(
        (n + 1) as nat,
        |k: int|
            if k == 0 {
                PathCmd::MoveTo(Anchor::At(s[0]))
            } else if k == 1 {
                PathCmd::LineTo(Anchor::Mid(s[0], s[1]))
            } else if k < n {
                PathCmd::QuadTo(s[k - 1], Anchor::Mid(s[k - 1], s[k]))
            } else {
                PathCmd::LineTo(Anchor::At(s[n - 1]))
            },
    )
}

/// The closed smoothed path around `s`: from the midpoint of the last and first points,
/// a quadratic segment around each point to the midpoint of it and its successor, the
/// last one wrapping round to the start.
pub open spec fn loop_cmds<P>(s: Seq<P>) -> Seq<PathCmd<P>> {
    let n = s.len() as int;
    Seq::new(
        (n + 1) as nat,
        |k: int|
            if k == 0 {
                PathCmd::MoveTo(Anchor::Mid(s[n - 1], s[0]))
            } else if k < n {
                PathCmd::QuadTo(s[k - 1], Anchor::Mid(s[k - 1], s[k]))
            } else {
                PathCmd::QuadTo(s[n - 1], Anchor::Mid(s[n - 1], s[0]))
            },
    )
}

/// The open smoothed path through `points`, which must hold at least two.
pub fn multi_curve<P: Copy>(points: &Vec<P>) -> (r: Vec<PathCmd<P>>)
    requires
        points.len() >= 2,
    ensures
        r@ == curve_cmds(points@),
{
    let n = points.len();
    let mut r: Vec<PathCmd<P>> = Vec::new();
    r.push(PathCmd::MoveTo(Anchor::At(points[0])));
    r.push(PathCmd::LineTo(Anchor::Mid(points[0], points[1])));
    let mut i: usize = 1;
    while i < n - 1
        invariant
            n == points.len(),
            n >= 2,
            1 <= i <= n - 1,
            r.len() == i + 1,
            forall|k: int| 0 <= k < r.len() ==> r@[k] == #[trigger] curve_cmds(points@)[k],
        decreases n - i,
    {
        r.push(PathCmd::QuadTo(points[i], Anchor::Mid(points[i], points[i + 1])));
        i = i + 1;
    }
    r.push(PathCmd::LineTo(Anchor::At(points[n - 1])));
    assert(r@ =~= curve_cmds(points@));
    r
}

/// The closed smoothed path around `points`, which must hold at least two. It ends
/// where it starts.
pub fn multi_loop<P: Copy>(points: &Vec<P>) -> (r: Vec<PathCmd<P>>)
    requires
        points.len() >= 2,
    ensures
        r@ == loop_cmds(points@),
        is_closed(r@),
{
    let n = points.len();
    let mut r: Vec<PathCmd<P>> = Vec::new();
    r.push(PathCmd::MoveTo(Anchor::Mid(points[n - 1], points[0])));
    let mut i: usize = 0;
    while i < n - 1
        invariant
            n == points.len(),
            n >= 2,
            i <= n - 1,
            r.len() == i + 1,
            forall|k: int| 0 <= k < r.len() ==> r@[k] == #[trigger] loop_cmds(points@)[k],
        decreases n - i,
    {
        r.push(PathCmd::QuadTo(points[i], Anchor::Mid(points[i], points[i + 1])));
        i = i + 1;
    }
    r.push(PathCmd::QuadTo(points[n - 1], Anchor::Mid(points[n - 1], points[0])));
    assert(r@ =~= loop_cmds(points@));
    proof {
        lemma_loop_closed(points@);
    }
    r
}

/// A closed smoothed path ends where it starts, whatever the points.
pub proof fn lemma_loop_closed<P>(s: Seq<P>)
    requires
        s.len() >= 2,
    ensures
        is_closed(loop_cmds(s)),
{
    let c = loop_cmds(s);
    assert(c[0] == PathCmd::MoveTo(Anchor::Mid(s[s.len() - 1], s[0])));
    assert(c.last() == PathCmd::QuadTo(s[s.len() - 1], Anchor::Mid(s[s.len() - 1], s[0])));
}

} // verus!
