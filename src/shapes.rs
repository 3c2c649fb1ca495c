//! Procedural shapes: polygon, star, splat and fractal line.
//!
//! Outlines are vertex lists in polar form about a local origin. A vertex's angle is
//! the exact fraction `step / steps` of a full turn; its radius is of the caller's
//! type. Placing, rotating and drawing the outline is the caller's part.
use vstd::prelude::*;
use crate::smooth::{multi_loop, loop_cmds, is_closed, PathCmd};

verus! {

/// A vertex at angle `step / steps` of a full turn and distance `radius` from the origin.
#[derive(Clone, Copy, Debug, PartialEq, Eq)]
pub struct Polar<R> {
    pub step: i64,
    pub steps: i64,
    pub radius: R,
}

/// A regular polygon's outline: a vertex at each of `sides` equal steps from angle 0,
/// then the first vertex again, which closes it.
pub open spec fn polygon_vertices<R>(r: R, sides: int) -> Seq<Polar<R>> {
    Seq::new(
        (sides + 1) as nat,
        |k: int| Polar { step: if k < sides { k as i64 } else { 0 }, steps: sides as i64, radius: r },
    )
}

/// A star's outline: `2 * points` vertices at equal steps, at `r1` on even steps and at
/// `r0` on odd ones, then the first vertex again, which closes it.
pub open spec fn star_vertices<R>(r0: R, r1: R, points: int) -> Seq<Polar<R>> {
    Seq::new(
        (2 * points + 1) as nat,
        |k: int|
            {
                let i = if k < 2 * points { k } else { 0 };
                Polar { step: i as i64, steps: (2 * points) as i64, radius: if i % 2 == 0 { r1 } else { r0 } }
            },
    )
}

pub fn polygon<R: Copy>(r: R, sides: i32) -> (v: Vec<Polar<R>>)
    requires
        sides >= 1,
    ensures
        v@ == polygon_vertices(r, sides as int),
{
    let mut v: Vec<Polar<R>> = Vec::new();
    let mut i: i32 = 0;
    while i < sides
        invariant
            0 <= i <= sides,
            v.len() == i,
            forall|k: int| 0 <= k < i ==> v@[k] == #[trigger] polygon_vertices(r, sides as int)[k],
        decreases sides - i,
    {
        v.push(Polar { step: i as i64, steps: sides as i64, radius: r });
        i = i + 1;
    }
    v.push(Polar { step: 0, steps: sides as i64, radius: r });
    assert(v@ =~= polygon_vertices(r, sides as int));
    v
}

pub fn star<R: Copy>(r0: R, r1: R, points: i32) -> (v: Vec<Polar<R>>)
    requires
        points >= 1,
    ensures
        v@ == star_vertices(r0, r1, points as int),
{
    let n: i64 = 2 * points as i64;
    let mut v: Vec<Polar<R>> = Vec::new();
    let mut i: i64 = 0;
    while i < n
        invariant
            n == 2 * points,
            points >= 1,
            0 <= i <= n,
            v.len() == i,
            forall|k: int| 0 <= k < i ==> v@[k] == #[trigger] star_vertices(r0, r1, points as int)[k],
        decreases n - i,
    {
        let radius = if i % 2 == 1 { r0 } else { r1 };
        v.push(Polar { step: i, steps: n, radius });
        i = i + 1;
    }
    v.push(Polar { step: 0, steps: n, radius: r1 });
    assert(v@ =~= star_vertices(r0, r1, points as int));
    v
}

/// The radii of one lobe of a splat: where its flanks bend and where it peaks.
#[derive(Clone, Copy, Debug, PartialEq, Eq)]
pub struct Lobe<R> {
    pub shoulder: R,
    pub peak: R,
}

/// The five vertices of lobe `k` of `n`, in twentieths of the lobe's share of a turn:
/// two on the inner circle at `-13` and `+3`, a shoulder at `-3`, the peak at `+5` and
/// a shoulder at `+13`, about the lobe's base angle `20 k`.
pub open spec fn lobe_vertex<R>(inner: R, lobe: Lobe<R>, k: int, n: int, j: int) -> Polar<R> {
    let steps = (20 * n) as i64;
    let base = 20 * k;
    if j == 0 {
        Polar { step: (base - 13) as i64, steps, radius: inner }
    } else if j == 1 {
        Polar { step: (base + 3) as i64, steps, radius: inner }
    } else if j == 2 {
        Polar { step: (base - 3) as i64, steps, radius: lobe.shoulder }
    } else if j == 3 {
        Polar { step: (base + 5) as i64, steps, radius: lobe.peak }
    } else {
        Polar { step: (base + 13) as i64, steps, radius: lobe.shoulder }
    }
}

/// The raw points of a splat: five for each lobe, in order.
pub open spec fn splat_vertices<R>(inner: R, lobes: Seq<Lobe<R>>) -> Seq<Polar<R>> {
    Seq::new(
        (5 * lobes.len()) as nat,
        |i: int| lobe_vertex(inner, lobes[i / 5], i / 5, lobes.len() as int, i % 5),
    )
}

/// The largest number of lobes a splat may have.
pub const MAX_LOBES: usize = 0x1000_0000;

/// The raw points of a splat with one lobe per entry of `lobes`.
pub fn splat_points<R: Copy>(inner: R, lobes: &Vec<Lobe<R>>) -> (v: Vec<Polar<R>>)
    requires
        1 <= lobes.len() <= MAX_LOBES,
    ensures
        v@ == splat_vertices(inner, lobes@),
{
    let n = lobes.len();
    let steps: i64 = 20 * n as i64;
    let mut v: Vec<Polar<R>> = Vec::new();
    let mut k: usize = 0;
    while k < n
        invariant
            n == lobes.len(),
            1 <= n <= MAX_LOBES,
            steps == 20 * n,
            k <= n,
            v.len() == 5 * k,
            forall|i: int| 0 <= i < 5 * k ==> v@[i] == #[trigger] splat_vertices(inner, lobes@)[i],
        decreases n - k,
    {
        let lobe = lobes[k];
        let base: i64 = 20 * k as i64;
        v.push(Polar { step: base - 13, steps, radius: inner });
        v.push(Polar { step: base + 3, steps, radius: inner });
        v.push(Polar { step: base - 3, steps, radius: lobe.shoulder });
        v.push(Polar { step: base + 5, steps, radius: lobe.peak });
        v.push(Polar { step: base + 13, steps, radius: lobe.shoulder });
        proof {
            assert forall|i: int| 5 * k <= i < 5 * k + 5 implies v@[i] == #[trigger] splat_vertices(
                inner,
                lobes@,
            )[i] by {
                assert(i / 5 == k as int);
                assert(i % 5 == i - 5 * k);
            }
        }
        k = k + 1;
    }
    assert(v@ =~= splat_vertices(inner, lobes@));
    v
}

/// A splat: its raw points smoothed into a closed path.
pub fn splat<R: Copy>(inner: R, lobes: &Vec<Lobe<R>>) -> (path: Vec<PathCmd<Polar<R>>>)
    requires
        1 <= lobes.len() <= MAX_LOBES,
    ensures
        path@ == loop_cmds(splat_vertices(inner, lobes@)),
        path.len() == 5 * lobes.len() + 1,
        is_closed(path@),
{
    let points = splat_points(inner, lobes);
    multi_loop(&points)
}

} // verus!
