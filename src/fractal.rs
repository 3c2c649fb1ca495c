//! Fractal lines by midpoint displacement.
//!
//! Each round keeps every point and puts a displaced midpoint between each pair of
//! neighbours. To stay exact, round `r` works in units of `2^-r` of the input's unit:
//! it doubles the points it keeps, and a new point is the sum of its two neighbours
//! plus its displacement, given in the new unit.
use vstd::prelude::*;
use crate::geom::point::Point;
use crate::geom::{in_range, COORD_LIMIT};
use crate::random::{int_drawn, Draw, Random};

verus! {

/// The largest number of rounds: after 30 the coordinates, in units of `2^-rounds`,
/// no longer fit in an `i64`.
pub const MAX_ROUNDS: u32 = 30;

pub open spec fn pow2(n: nat) -> nat
    decreases n,
{
    if n == 0 {
        1
    } else {
        2 * pow2((n - 1) as nat)
    }
}

/// A bound on the coordinates after `r` rounds.
pub open spec fn coord_bound(r: nat) -> int {
    COORD_LIMIT * (pow2(r + 1) - 1)
}

pub open spec fn bounded(p: Point, b: int) -> bool {
    -b <= p.x <= b && -b <= p.y <= b
}

/// `p` in the unit of the next round.
pub open spec fn doubled(p: Point) -> Point {
    Point { x: (2 * p.x) as i64, y: (2 * p.y) as i64 }
}

/// The point between `a` and `b` displaced by `d`, in the unit of the next round.
pub open spec fn displaced_mid(a: Point, b: Point, d: Point) -> Point {
    Point { x: (a.x + b.x + d.x) as i64, y: (a.y + b.y + d.y) as i64 }
}

/// One round: the points of `path` kept, with the midpoint of each pair `i, i + 1`
/// displaced by `jitter[i]` between them.
pub open spec fn subdivide(path: Seq<Point>, jitter: Seq<Point>) -> Seq<Point> {
    Seq::new(
        (2 * path.len() - 1) as nat,
        |k: int|
            if k % 2 == 0 {
                doubled(path[k / 2])
            } else {
                displaced_mid(path[k / 2], path[k / 2 + 1], jitter[k / 2])
            },
    )
}

/// The displacements of round `r`, which are the next `2^r` entries of `jitter`.
pub open spec fn round_jitter(jitter: Seq<Point>, r: nat) -> Seq<Point> {
    jitter.subrange(pow2(r) - 1, pow2(r + 1) - 1)
}

/// The line from `start` to `end` after `rounds` rounds, in units of `2^-rounds`.
pub open spec fn fractal(start: Point, end: Point, jitter: Seq<Point>, rounds: nat) -> Seq<Point>
    decreases rounds,
{
    if rounds == 0 {
        seq![start, end]
    } else {
        subdivide(
            fractal(start, end, jitter, (rounds - 1) as nat),
            round_jitter(jitter, (rounds - 1) as nat),
        )
    }
}

/// Displacements fit for `rounds` rounds: `2^rounds - 1` of them, each within the
/// coordinate range.
pub open spec fn jitter_fits(jitter: Seq<Point>, rounds: nat) -> bool {
    &&& jitter.len() == pow2(rounds) - 1
    &&& forall|i: int| 0 <= i < jitter.len() ==> in_range(#[trigger] jitter[i])
}

proof fn lemma_pow2_facts(r: nat)
    requires
        r <= MAX_ROUNDS,
    ensures
        1 <= pow2(r) <= pow2(r + 1),
        pow2(r + 1) == 2 * pow2(r),
        pow2(r) <= 0x4000_0000,
{
    lemma_pow2_positive(r);
    lemma_pow2_mono(r, 30);
    lemma_pow2_max();
}

/// `2^30`, the number of steps of the longest line.
proof fn lemma_pow2_max()
    ensures
        pow2(30) == 0x4000_0000,
{
    reveal_with_fuel(pow2, 31);
}

proof fn lemma_pow2_positive(r: nat)
    ensures
        pow2(r) >= 1,
    decreases r,
{
    if r > 0 {
        lemma_pow2_positive((r - 1) as nat);
    }
}

proof fn lemma_pow2_mono(a: nat, b: nat)
    requires
        a <= b,
    ensures
        pow2(a) <= pow2(b),
    decreases b,
{
    if a < b {
        lemma_pow2_mono(a, (b - 1) as nat);
        lemma_pow2_positive((b - 1) as nat);
    }
}

/// The line from `start` to `end` after `rounds` rounds of midpoint displacement by
/// `jitter`, in units of `2^-rounds` of the input's unit: `2^rounds + 1` points, from
/// `start` to `end`.
pub fn fractal_path(start: Point, end: Point, jitter: &Vec<Point>, rounds: u32) -> (path: Vec<Point>)
    requires
        in_range(start),
        in_range(end),
        rounds <= MAX_ROUNDS,
        jitter_fits(jitter@, rounds as nat),
    ensures
        path@ == fractal(start, end, jitter@, rounds as nat),
        path.len() == pow2(rounds as nat) + 1,
{
    let mut path: Vec<Point> = Vec::new();
    path.push(start);
    path.push(end);
    let mut r: u32 = 0;
    let mut first: usize = 0;
    let mut count: usize = 1;
    proof {
        assert(path@ =~= fractal(start, end, jitter@, 0));
        assert(COORD_LIMIT * (pow2(1) - 1) == COORD_LIMIT) by {
            reveal_with_fuel(pow2, 2);
        }
        lemma_pow2_mono(rounds as nat, MAX_ROUNDS as nat);
        lemma_pow2_max();
    }
    while r < rounds
        invariant
            rounds <= MAX_ROUNDS,
            jitter_fits(jitter@, rounds as nat),
            r <= rounds,
            count == pow2(r as nat),
            first == pow2(r as nat) - 1,
            path@ == fractal(start, end, jitter@, r as nat),
            path.len() == count + 1,
            forall|i: int| 0 <= i < path.len() ==> bounded(#[trigger] path@[i], coord_bound(r as nat)),
        decreases rounds - r,
    {
        proof {
            lemma_pow2_facts(r as nat);
            lemma_pow2_facts((r + 1) as nat);
            lemma_pow2_mono((r + 1) as nat, rounds as nat);
        }
        let ghost seg = round_jitter(jitter@, r as nat);
        let ghost old_path = path@;
        let ghost b = coord_bound(r as nat);
        assert(coord_bound((r + 1) as nat) == 2 * b + COORD_LIMIT) by (nonlinear_arith)
            requires
                b == COORD_LIMIT * (pow2(r as nat + 1) - 1),
                coord_bound((r + 1) as nat) == COORD_LIMIT * (pow2((r + 1) as nat + 1) - 1),
                pow2((r + 1) as nat + 1) == 2 * pow2(r as nat + 1),
        ;
        assert(b <= COORD_LIMIT * 0x4000_0000) by (nonlinear_arith)
            requires
                b == COORD_LIMIT * (pow2(r as nat + 1) - 1),
                pow2(r as nat + 1) <= 0x4000_0000,
        ;
        let mut next: Vec<Point> = Vec::new();
        let mut j: usize = 0;
        while j < count
            invariant
                count + 1 == path.len(),
                count == pow2(r as nat),
                first == pow2(r as nat) - 1,
                first + count <= jitter.len(),
                jitter_fits(jitter@, rounds as nat),
                seg == jitter@.subrange(first as int, first + count),
                path@ == old_path,
                j <= count,
                next.len() == 2 * j,
                b <= COORD_LIMIT * 0x4000_0000,
                coord_bound((r + 1) as nat) == 2 * b + COORD_LIMIT,
                forall|i: int| 0 <= i < path.len() ==> bounded(#[trigger] path@[i], b),
                forall|k: int| 0 <= k < next.len() ==> next@[k] == #[trigger] subdivide(old_path, seg)[k],
                forall|k: int| 0 <= k < next.len() ==> bounded(#[trigger] next@[k], coord_bound((r + 1) as nat)),
            decreases count - j,
        {
            let a = path[j];
            let c = path[j + 1];
            let d = jitter[first + j];
            assert(bounded(path@[j as int], b));
            assert(bounded(path@[j + 1], b));
            assert(in_range(jitter@[first + j]));
            next.push(Point { x: 2 * a.x, y: 2 * a.y });
            next.push(Point { x: a.x + c.x + d.x, y: a.y + c.y + d.y });
            proof {
                assert(seg[j as int] == d);
                assert forall|k: int| 2 * j <= k < 2 * j + 2 implies next@[k] == #[trigger] subdivide(old_path, seg)[k] by {
                    assert(k / 2 == j as int);
                }
            }
            j = j + 1;
        }
        next.push(Point { x: 2 * path[count].x, y: 2 * path[count].y });
        proof {
            assert(bounded(path@[count as int], b));
            let k = 2 * count;
            assert(k / 2 == count as int && k % 2 == 0);
            assert(next@ =~= subdivide(old_path, seg));
            assert(round_jitter(jitter@, r as nat) == seg);
        }
        path = next;
        first = first + count;
        count = 2 * count;
        r = r + 1;
    }
    path
}

/// Displacements that stay, in round `r`, within `offsets[r]` on each axis.
pub open spec fn jitter_within(jitter: Seq<Point>, offsets: Seq<i32>) -> bool {
    forall|r: int, i: int|
        0 <= r < offsets.len() && 0 <= i < pow2(r as nat) ==> bounded(
            #[trigger] round_jitter(jitter, r as nat)[i],
            offsets[r] as int,
        )
}

/// The request for one coordinate of a displacement within `off`.
pub open spec fn jitter_request(off: i32) -> Draw {
    Draw::Int { min: (-off) as i32, max: (off + 1) as i32 }
}

/// The requests round `r` makes: an x and a y for each of its `2^r` pairs.
pub open spec fn round_requests(off: i32, r: nat) -> Seq<Draw> {
    Seq::new(2 * pow2(r), |_i: int| jitter_request(off))
}

/// The requests the first `r` rounds make, in order.
pub open spec fn jitter_requests(offsets: Seq<i32>, r: nat) -> Seq<Draw>
    decreases r,
{
    if r == 0 {
        Seq::empty()
    } else {
        jitter_requests(offsets, (r - 1) as nat) + round_requests(offsets[r - 1], (r - 1) as nat)
    }
}

proof fn lemma_requests_len(offsets: Seq<i32>, r: nat)
    ensures
        jitter_requests(offsets, r).len() == 2 * (pow2(r) - 1),
    decreases r,
{
    if r > 0 {
        lemma_requests_len(offsets, (r - 1) as nat);
        lemma_pow2_positive((r - 1) as nat);
    }
}

proof fn lemma_requests_prefix(offsets: Seq<i32>, r: nat, rounds: nat)
    requires
        r <= rounds,
    ensures
        jitter_requests(offsets, rounds).take(2 * (pow2(r) - 1)) == jitter_requests(offsets, r),
    decreases rounds,
{
    lemma_requests_len(offsets, r);
    lemma_requests_len(offsets, rounds);
    if r < rounds {
        lemma_requests_prefix(offsets, r, (rounds - 1) as nat);
        lemma_requests_len(offsets, (rounds - 1) as nat);
        lemma_pow2_mono(r, (rounds - 1) as nat);
        let all = jitter_requests(offsets, rounds);
        let prev = jitter_requests(offsets, (rounds - 1) as nat);
        assert(all.take(2 * (pow2(r) - 1)) =~= prev.take(2 * (pow2(r) - 1)));
    } else {
        assert(jitter_requests(offsets, rounds).take(2 * (pow2(r) - 1)) =~= jitter_requests(offsets, r));
    }
}

/// Displacement `k` as drawn by a source with `seed` whose earlier requests were
/// `base`, the whole construction asking `reqs`: its x answers request `2 k` and its
/// y request `2 k + 1`.
pub open spec fn drawn_jitter(seed: u64, base: Seq<Draw>, reqs: Seq<Draw>, k: int) -> Point {
    Point {
        x: int_drawn(seed, base + reqs.take(2 * k + 1)) as i64,
        y: int_drawn(seed, base + reqs.take(2 * k + 2)) as i64,
    }
}

/// The displacements for `rounds` rounds drawn by a source with `seed` whose earlier
/// requests were `base`.
pub open spec fn jitter_from(seed: u64, base: Seq<Draw>, offsets: Seq<i32>, rounds: nat) -> Seq<Point> {
    Seq::new(
        (pow2(rounds) - 1) as nat,
        |k: int| drawn_jitter(seed, base, jitter_requests(offsets, rounds), k),
    )
}

/// Draws the displacements for `offsets.len()` rounds: for each pair of neighbours of
/// each round in order, an x and then a y in `[-offsets[r], offsets[r]]`.
pub fn draw_jitter(rng: &mut Random, offsets: &Vec<i32>) -> (jitter: Vec<Point>)
    requires
        offsets.len() <= MAX_ROUNDS,
        forall|r: int| 0 <= r < offsets.len() ==> 0 <= #[trigger] offsets@[r] < i32::MAX,
    ensures
        jitter_fits(jitter@, offsets.len() as nat),
        jitter_within(jitter@, offsets@),
        final(rng).seed() == old(rng).seed(),
        final(rng).calls() == old(rng).calls() + jitter_requests(offsets@, offsets.len() as nat),
        jitter@ == jitter_from(old(rng).seed(), old(rng).calls(), offsets@, offsets.len() as nat),
{
    let rounds = offsets.len();
    let ghost seed = rng.seed();
    let ghost base = rng.calls();
    let ghost reqs = jitter_requests(offsets@, rounds as nat);
    let mut jitter: Vec<Point> = Vec::new();
    let mut r: usize = 0;
    let mut count: usize = 1;
    proof {
        lemma_pow2_mono(rounds as nat, MAX_ROUNDS as nat);
        lemma_pow2_max();
    }
    while r < rounds
        invariant
            rounds == offsets.len(),
            rounds <= MAX_ROUNDS,
            forall|q: int| 0 <= q < offsets.len() ==> 0 <= #[trigger] offsets@[q] < i32::MAX,
            r <= rounds,
            count == pow2(r as nat),
            jitter.len() == pow2(r as nat) - 1,
            forall|i: int| 0 <= i < jitter.len() ==> in_range(#[trigger] jitter@[i]),
            forall|q: int, i: int|
                0 <= q < r && 0 <= i < pow2(q as nat) ==> bounded(
                    #[trigger] round_jitter(jitter@, q as nat)[i],
                    offsets@[q] as int,
                ),
            rng.seed() == old(rng).seed(),
            rng.calls() == old(rng).calls() + jitter_requests(offsets@, r as nat),
            seed == old(rng).seed(),
            base == old(rng).calls(),
            reqs == jitter_requests(offsets@, rounds as nat),
            forall|k: int| 0 <= k < jitter.len() ==> #[trigger] jitter@[k] == drawn_jitter(seed, base, reqs, k),
        decreases rounds - r,
    {
        proof {
            lemma_pow2_facts(r as nat);
            lemma_pow2_mono((r + 1) as nat, MAX_ROUNDS as nat);
        }
        let off = offsets[r];
        let ghost before = jitter@;
        let ghost calls_before = rng.calls();
        let ghost done_reqs = jitter_requests(offsets@, r as nat);
        proof {
            lemma_requests_len(offsets@, r as nat);
            lemma_requests_prefix(offsets@, (r + 1) as nat, rounds as nat);
            lemma_requests_len(offsets@, rounds as nat);
            lemma_pow2_mono((r + 1) as nat, rounds as nat);
            assert(jitter_requests(offsets@, (r + 1) as nat) == done_reqs + round_requests(off, r as nat));
        }
        let mut j: usize = 0;
        while j < count
            invariant
                count == pow2(r as nat),
                count <= 0x4000_0000,
                before.len() == count - 1,
                jitter@.subrange(0, count - 1) == before,
                jitter.len() == count - 1 + j,
                j <= count,
                0 <= off < i32::MAX,
                forall|i: int| 0 <= i < jitter.len() ==> in_range(#[trigger] jitter@[i]),
                forall|i: int| count - 1 <= i < jitter.len() ==> bounded(#[trigger] jitter@[i], off as int),
                rng.seed() == old(rng).seed(),
                rng.calls() == calls_before + Seq::new(2 * j as nat, |_i: int| jitter_request(off)),
                calls_before == base + done_reqs,
                done_reqs.len() == 2 * (count - 1),
                r < rounds,
                off == offsets@[r as int],
                reqs.take(2 * (pow2((r + 1) as nat) - 1)) == done_reqs + round_requests(off, r as nat),
                pow2((r + 1) as nat) == 2 * count,
                reqs.len() >= 2 * (pow2((r + 1) as nat) - 1),
                forall|k: int| 0 <= k < jitter.len() ==> #[trigger] jitter@[k] == drawn_jitter(seed, base, reqs, k),
                seed == old(rng).seed(),
            decreases count - j,
        {
            let ghost k = jitter.len() as int;
            proof {
                let upto = reqs.take(2 * (pow2((r + 1) as nat) - 1));
                assert(reqs.take(2 * k + 1) =~= upto.take(2 * k + 1));
                assert(reqs.take(2 * k + 2) =~= upto.take(2 * k + 2));
                assert(upto.take(2 * k + 1) =~= done_reqs + Seq::new(2 * j as nat, |_i: int| jitter_request(off)).push(jitter_request(off)));
                assert(upto.take(2 * k + 2) =~= done_reqs + Seq::new(2 * j as nat, |_i: int| jitter_request(off)).push(jitter_request(off)).push(jitter_request(off)));
                assert(calls_before + Seq::new(2 * j as nat, |_i: int| jitter_request(off)).push(jitter_request(off)) =~= base + reqs.take(2 * k + 1));
                assert(calls_before + Seq::new(2 * j as nat, |_i: int| jitter_request(off)).push(jitter_request(off)).push(jitter_request(off)) =~= base + reqs.take(2 * k + 2));
            }
            let x = rng.integer(-off, off + 1);
            let y = rng.integer(-off, off + 1);
            jitter.push(Point { x: x as i64, y: y as i64 });
            proof {
                assert(jitter@[k] == drawn_jitter(seed, base, reqs, k));
                assert(jitter@.subrange(0, count - 1) =~= before);
                assert(rng.calls() =~= calls_before + Seq::new(2 * (j + 1) as nat, |_i: int| jitter_request(off)));
            }
            j = j + 1;
        }
        proof {
            assert(Seq::new(2 * count as nat, |_i: int| jitter_request(off)) =~= round_requests(offsets@[r as int], r as nat));
            assert(jitter_requests(offsets@, (r + 1) as nat) == jitter_requests(offsets@, r as nat)
                + round_requests(offsets@[r as int], r as nat));
            assert(rng.calls() =~= old(rng).calls() + jitter_requests(offsets@, (r + 1) as nat));
            let fresh = jitter@;
            assert forall|q: int, i: int|
                0 <= q <= r && 0 <= i < pow2(q as nat) implies bounded(
                #[trigger] round_jitter(fresh, q as nat)[i],
                offsets@[q] as int,
            ) by {
                lemma_pow2_facts(q as nat);
                if q < r {
                    lemma_pow2_mono((q + 1) as nat, r as nat);
                    assert(round_jitter(fresh, q as nat)[i] == fresh[pow2(q as nat) - 1 + i]);
                    assert(fresh[pow2(q as nat) - 1 + i] == before[pow2(q as nat) - 1 + i]);
                    assert(round_jitter(before, q as nat)[i] == before[pow2(q as nat) - 1 + i]);
                } else {
                    assert(round_jitter(fresh, q as nat)[i] == fresh[pow2(q as nat) - 1 + i]);
                }
            }
        }
        count = 2 * count;
        r = r + 1;
    }
    assert(jitter@ =~= jitter_from(seed, base, offsets@, rounds as nat));
    jitter
}

/// A fractal line from `start` to `end` with `offsets.len()` rounds, displaced in
/// round `r` by up to `offsets[r]` on each axis, in units of `2^-rounds`.
pub fn fractal_line(rng: &mut Random, start: Point, end: Point, offsets: &Vec<i32>) -> (path: Vec<Point>)
    requires
        in_range(start),
        in_range(end),
        offsets.len() <= MAX_ROUNDS,
        forall|r: int| 0 <= r < offsets.len() ==> 0 <= #[trigger] offsets@[r] < i32::MAX,
    ensures
        path.len() == pow2(offsets.len() as nat) + 1,
        final(rng).seed() == old(rng).seed(),
        final(rng).calls() == old(rng).calls() + jitter_requests(offsets@, offsets.len() as nat),
        ({
            let jitter = jitter_from(old(rng).seed(), old(rng).calls(), offsets@, offsets.len() as nat);
            &&& jitter_fits(jitter, offsets.len() as nat)
            &&& jitter_within(jitter, offsets@)
            &&& path@ == fractal(start, end, jitter, offsets.len() as nat)
        }),
{
    let jitter = draw_jitter(rng, offsets);
    fractal_path(start, end, &jitter, offsets.len() as u32)
}

/// Point `i` of `2^rounds` equal steps from `start` to `end`, in units of `2^-rounds`.
pub open spec fn straight_point(start: Point, end: Point, rounds: nat, i: int) -> Point {
    let n = pow2(rounds) as int;
    Point { x: (start.x * (n - i) + end.x * i) as i64, y: (start.y * (n - i) + end.y * i) as i64 }
}

pub open spec fn zero_jitter(jitter: Seq<Point>) -> bool {
    forall|i: int| 0 <= i < jitter.len() ==> #[trigger] jitter[i] == Point { x: 0, y: 0 }
}

proof fn lemma_weighted_bound(s: int, e: int, n: int, i: int)
    requires
        -COORD_LIMIT <= s <= COORD_LIMIT,
        -COORD_LIMIT <= e <= COORD_LIMIT,
        0 <= i <= n,
        n <= 0x4000_0000,
    ensures
        -(COORD_LIMIT * 0x4000_0000) <= s * (n - i) + e * i <= COORD_LIMIT * 0x4000_0000,
{
    assert(-(COORD_LIMIT * n) <= s * (n - i) + e * i <= COORD_LIMIT * n) by (nonlinear_arith)
        requires
            -COORD_LIMIT <= s <= COORD_LIMIT,
            -COORD_LIMIT <= e <= COORD_LIMIT,
            0 <= i <= n,
    ;
    assert(COORD_LIMIT * n <= COORD_LIMIT * 0x4000_0000) by (nonlinear_arith)
        requires
            0 <= n <= 0x4000_0000,
    ;
}

/// Without displacement a fractal line stays straight: after `rounds` rounds it is the
/// `2^rounds + 1` points that split the segment from `start` to `end` into equal steps.
pub proof fn lemma_fractal_straight(start: Point, end: Point, jitter: Seq<Point>, rounds: nat)
    requires
        in_range(start),
        in_range(end),
        rounds <= MAX_ROUNDS,
        jitter.len() >= pow2(rounds) - 1,
        zero_jitter(jitter),
    ensures
        fractal(start, end, jitter, rounds).len() == pow2(rounds) + 1,
        forall|i: int|
            0 <= i <= pow2(rounds) ==> #[trigger] fractal(start, end, jitter, rounds)[i]
                == straight_point(start, end, rounds, i),
    decreases rounds,
{
    if rounds == 0 {
        reveal_with_fuel(pow2, 1);
        assert(pow2(0) == 1);
        let f = fractal(start, end, jitter, 0);
        assert(start.x * (1 - 0) + end.x * 0 == start.x);
        assert(start.y * (1 - 0) + end.y * 0 == start.y);
        assert(start.x * (1 - 1) + end.x * 1 == end.x);
        assert(start.y * (1 - 1) + end.y * 1 == end.y);
        assert(f[0] == straight_point(start, end, 0, 0));
        assert(f[1] == straight_point(start, end, 0, 1));
    } else {
        let k = (rounds - 1) as nat;
        lemma_pow2_facts(k);
        lemma_pow2_facts(rounds);
        lemma_pow2_mono(k, rounds);
        lemma_fractal_straight(start, end, jitter, k);
        let prev = fractal(start, end, jitter, k);
        let seg = round_jitter(jitter, k);
        let n = pow2(k) as int;
        assert forall|i: int| 0 <= i <= pow2(rounds) implies #[trigger] fractal(start, end, jitter, rounds)[i]
            == straight_point(start, end, rounds, i) by {
            let f = fractal(start, end, jitter, rounds);
            let h = i / 2;
            assert(0 <= h <= n);
            lemma_weighted_bound(start.x as int, end.x as int, n, h);
            lemma_weighted_bound(start.y as int, end.y as int, n, h);
            lemma_weighted_bound(start.x as int, end.x as int, 2 * n, i);
            lemma_weighted_bound(start.y as int, end.y as int, 2 * n, i);
            if i % 2 == 0 {
                assert(f[i] == doubled(prev[h]));
                assert(2 * (start.x * (n - h) + end.x * h) == start.x * (2 * n - i) + end.x * i)
                    by (nonlinear_arith)
                    requires
                        i == 2 * h,
                ;
                assert(2 * (start.y * (n - h) + end.y * h) == start.y * (2 * n - i) + end.y * i)
                    by (nonlinear_arith)
                    requires
                        i == 2 * h,
                ;
            } else {
                lemma_weighted_bound(start.x as int, end.x as int, n, h + 1);
                lemma_weighted_bound(start.y as int, end.y as int, n, h + 1);
                assert(seg[h] == jitter[n - 1 + h]);
                assert(f[i] == displaced_mid(prev[h], prev[h + 1], seg[h]));
                assert((start.x * (n - h) + end.x * h) + (start.x * (n - (h + 1)) + end.x * (h + 1))
                    == start.x * (2 * n - i) + end.x * i) by (nonlinear_arith)
                    requires
                        i == 2 * h + 1,
                ;
                assert((start.y * (n - h) + end.y * h) + (start.y * (n - (h + 1)) + end.y * (h + 1))
                    == start.y * (2 * n - i) + end.y * i) by (nonlinear_arith)
                    requires
                        i == 2 * h + 1,
                ;
            }
        }
    }
}

/// Whatever the displacements, a line after `rounds` rounds has `2^rounds + 1` points.
pub proof fn lemma_fractal_len(start: Point, end: Point, jitter: Seq<Point>, rounds: nat)
    ensures
        fractal(start, end, jitter, rounds).len() == pow2(rounds) + 1,
    decreases rounds,
{
    if rounds > 0 {
        lemma_fractal_len(start, end, jitter, (rounds - 1) as nat);
    }
}

/// Point `i` of the stretch of `path` that follows knot `j`, `2^r` steps to a stretch.
pub open spec fn stretch_point(path: Seq<Point>, r: nat, j: int, i: int) -> Point {
    path[j * pow2(r) + i]
}

/// Whether `path` runs straight, in `2^r` equal steps, from each of `knots` to the
/// next, in units of `2^-r` of the knots' unit.
pub open spec fn piecewise_straight(path: Seq<Point>, knots: Seq<Point>, r: nat) -> bool {
    &&& knots.len() >= 2
    &&& path.len() == (knots.len() - 1) * pow2(r) + 1
    &&& forall|j: int, i: int|
        0 <= j < knots.len() - 1 && 0 <= i <= pow2(r) ==> #[trigger] stretch_point(path, r, j, i)
            == straight_point(knots[j], knots[j + 1], r, i)
}

proof fn lemma_subdivide_piecewise(path: Seq<Point>, knots: Seq<Point>, zeros: Seq<Point>, r: nat)
    requires
        r + 1 <= MAX_ROUNDS,
        piecewise_straight(path, knots, r),
        zeros.len() == path.len() - 1,
        zero_jitter(zeros),
        forall|j: int| 0 <= j < knots.len() ==> bounded(#[trigger] knots[j], 3 * COORD_LIMIT),
    ensures
        piecewise_straight(subdivide(path, zeros), knots, r + 1),
{
    lemma_pow2_facts(r);
    lemma_pow2_facts(r + 1);
    let p = pow2(r) as int;
    let n = subdivide(path, zeros);
    let kl = knots.len() - 1;
    assert(n.len() == kl * pow2(r + 1) + 1) by (nonlinear_arith)
        requires
            n.len() == 2 * path.len() - 1,
            path.len() == kl * p + 1,
            pow2(r + 1) == 2 * p,
    ;
    assert forall|j: int, i: int|
        0 <= j < knots.len() - 1 && 0 <= i <= pow2(r + 1) implies #[trigger] stretch_point(n, r + 1, j, i)
        == straight_point(knots[j], knots[j + 1], r + 1, i) by {
        let a = knots[j];
        let b = knots[j + 1];
        let h = i / 2;
        let t = j * pow2(r + 1) + i;
        assert(t == 2 * (j * p + h) + i % 2 && 0 <= j * p) by (nonlinear_arith)
            requires
                t == j * pow2(r + 1) + i,
                pow2(r + 1) == 2 * p,
                h == i / 2,
                0 <= i,
                0 <= j,
                p >= 1,
        ;
        if i % 2 == 1 {
            assert(j * p + h + 1 <= kl * p) by (nonlinear_arith)
                requires
                    0 <= j < kl,
                    0 <= h,
                    h + 1 <= p,
            ;
        }
        assert(t / 2 == j * p + h && t % 2 == i % 2);
        assert(j * p + h <= kl * p) by (nonlinear_arith)
            requires
                0 <= j < kl,
                0 <= h <= p,
        ;
        assert(j * p + h < path.len());
        lemma_scaled_bound(a.x as int, b.x as int, p, h);
        lemma_scaled_bound(a.y as int, b.y as int, p, h);
        lemma_scaled_bound(a.x as int, b.x as int, 2 * p, i);
        lemma_scaled_bound(a.y as int, b.y as int, 2 * p, i);
        assert(stretch_point(path, r, j, h) == straight_point(a, b, r, h));
        if i % 2 == 0 {
            assert(2 * (a.x * (p - h) + b.x * h) == a.x * (2 * p - i) + b.x * i) by (nonlinear_arith)
                requires
                    i == 2 * h,
            ;
            assert(2 * (a.y * (p - h) + b.y * h) == a.y * (2 * p - i) + b.y * i) by (nonlinear_arith)
                requires
                    i == 2 * h,
            ;
        } else {
            lemma_scaled_bound(a.x as int, b.x as int, p, h + 1);
            lemma_scaled_bound(a.y as int, b.y as int, p, h + 1);
            assert(stretch_point(path, r, j, h + 1) == straight_point(a, b, r, h + 1));
            assert(zeros[j * p + h] == Point { x: 0, y: 0 });
            assert((a.x * (p - h) + b.x * h) + (a.x * (p - (h + 1)) + b.x * (h + 1)) == a.x * (2 * p
                - i) + b.x * i) by (nonlinear_arith)
                requires
                    i == 2 * h + 1,
            ;
            assert((a.y * (p - h) + b.y * h) + (a.y * (p - (h + 1)) + b.y * (h + 1)) == a.y * (2 * p
                - i) + b.y * i) by (nonlinear_arith)
                requires
                    i == 2 * h + 1,
            ;
        }
    }
}

proof fn lemma_scaled_bound(s: int, e: int, n: int, i: int)
    requires
        -3 * COORD_LIMIT <= s <= 3 * COORD_LIMIT,
        -3 * COORD_LIMIT <= e <= 3 * COORD_LIMIT,
        0 <= i <= n,
        n <= 0x4000_0000,
    ensures
        -(3 * COORD_LIMIT * 0x4000_0000) <= s * (n - i) + e * i <= 3 * COORD_LIMIT * 0x4000_0000,
{
    assert(-(3 * COORD_LIMIT * n) <= s * (n - i) + e * i <= 3 * COORD_LIMIT * n) by (nonlinear_arith)
        requires
            -3 * COORD_LIMIT <= s <= 3 * COORD_LIMIT,
            -3 * COORD_LIMIT <= e <= 3 * COORD_LIMIT,
            0 <= i <= n,
    ;
    assert(3 * COORD_LIMIT * n <= 3 * COORD_LIMIT * 0x4000_0000) by (nonlinear_arith)
        requires
            0 <= n <= 0x4000_0000,
    ;
}

/// The start, the displaced middle point and the end after the first round.
pub open spec fn first_round_knots(start: Point, end: Point, jitter: Seq<Point>) -> Seq<Point> {
    seq![doubled(start), displaced_mid(start, end, jitter[0]), doubled(end)]
}

/// When only the first round displaces (as with a roughness of zero), the line is two
/// straight runs: from the start to the one displaced middle point, and from it to the
/// end, each in equal steps. So every other point lies on the segment from `start` to
/// `end` exactly when that middle point does.
pub proof fn lemma_fractal_first_round_only(start: Point, end: Point, jitter: Seq<Point>, rounds: nat)
    requires
        in_range(start),
        in_range(end),
        1 <= rounds <= MAX_ROUNDS,
        jitter.len() >= pow2(rounds) - 1,
        in_range(jitter[0]),
        zero_jitter(jitter.drop_first()),
    ensures
        piecewise_straight(fractal(start, end, jitter, rounds), first_round_knots(start, end, jitter), (rounds - 1) as nat),
    decreases rounds,
{
    let knots = first_round_knots(start, end, jitter);
    lemma_pow2_facts(rounds);
    lemma_pow2_facts((rounds - 1) as nat);
    if rounds == 1 {
        reveal_with_fuel(pow2, 2);
        let f = fractal(start, end, jitter, 1);
        assert(fractal(start, end, jitter, 0) == seq![start, end]);
        assert(round_jitter(jitter, 0)[0] == jitter[0]);
        assert(f.len() == 3);
        assert forall|j: int, i: int| 0 <= j < 2 && 0 <= i <= pow2(0) implies #[trigger] stretch_point(f, 0, j, i)
            == straight_point(knots[j], knots[j + 1], 0, i) by {
            assert(pow2(0) == 1);
            let a = knots[j];
            let b = knots[j + 1];
            assert(a.x * (1 - i) + b.x * i == if i == 0 { a.x as int } else { b.x as int }) by (nonlinear_arith)
                requires
                    0 <= i <= 1,
            ;
            assert(a.y * (1 - i) + b.y * i == if i == 0 { a.y as int } else { b.y as int }) by (nonlinear_arith)
                requires
                    0 <= i <= 1,
            ;
            assert(j * 1 + i == j + i);
        }
    } else {
        let k = (rounds - 1) as nat;
        lemma_pow2_mono(k, rounds);
        lemma_fractal_first_round_only(start, end, jitter, k);
        let seg = round_jitter(jitter, k);
        lemma_pow2_facts(k);
        lemma_pow2_positive((k - 1) as nat);
        lemma_fractal_len(start, end, jitter, k);
        assert forall|i: int| 0 <= i < seg.len() implies #[trigger] seg[i] == (Point { x: 0, y: 0 }) by {
            assert(seg[i] == jitter[pow2(k) - 1 + i]);
            assert(jitter.drop_first()[pow2(k) - 2 + i] == jitter[pow2(k) - 1 + i]);
        }
        assert forall|j: int| 0 <= j < knots.len() implies bounded(#[trigger] knots[j], 3 * COORD_LIMIT) by {}
        lemma_subdivide_piecewise(fractal(start, end, jitter, k), knots, seg, (k - 1) as nat);
    }
}

} // verus!
