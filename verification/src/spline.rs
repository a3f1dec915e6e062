//! Pure spline evaluation: turns an ordered control-point sequence into a
//! tessellated polyline for each curve kind.
//!
//! Every curve is sampled on the fixed-point grid with 100 steps per
//! segment, so a curve of `S` segments yields `100 * S + 1` samples. The
//! cubic polynomials are evaluated exactly over the integers and brought
//! back to the grid with division rounding toward zero, which keeps the
//! node samples of the interpolating cardinal spline exactly equal to the
//! control points.

use vstd::prelude::*;
use vstd::arithmetic::div_mod::lemma_div_multiples_vanish;
use crate::geom::{
    coord_in_range, div_trunc, lemma_mul_bound, lemma_trunc_div_bound, lemma_trunc_div_exact,
    point_in_range, trunc_div, Point, MAX_COORD,
};

verus! {

/// Most control points the tessellators accept in one call; keeps the
/// sample count within the index range.
pub const MAX_POINTS: usize = 10_000_000;

pub open spec fn points_in_range(s: Seq<Point>) -> bool {
    forall|k: int| 0 <= k < s.len() ==> point_in_range(#[trigger] s[k])
}

// ---------------------------------------------------------------------------
// Per-coordinate cubic evaluation, exact over the integers.
// ---------------------------------------------------------------------------

/// Numerator of a cubic Bezier coordinate at parameter `i / 100`, scaled by
/// `100^3`: the Bernstein form over anchors `a`, `d` and handles `b`, `c`.
pub open spec fn bez_num(a: int, b: int, c: int, d: int, i: int) -> int {
    let j = 100 - i;
    ((j * j) * j) * a + 3 * (((j * j) * i) * b) + 3 * (((j * i) * i) * c) + ((i * i) * i) * d
}

pub open spec fn bez_coord(a: int, b: int, c: int, d: int, i: int) -> int {
    trunc_div(bez_num(a, b, c, d, i), 1_000_000)
}

/// Numerator of a uniform cubic B-spline coordinate at parameter `i / 100`
/// over the window `a, b, c, d`, scaled by `6 * 100^3`.
pub open spec fn bsp_num(a: int, b: int, c: int, d: int, i: int) -> int {
    let j = 100 - i;
    ((j * j) * j) * a
        + (3 * ((i * i) * i) - 600 * (i * i) + 4_000_000) * b
        + (1_000_000 + 30_000 * i + 300 * (i * i) - 3 * ((i * i) * i)) * c
        + ((i * i) * i) * d
}

pub open spec fn bsp_coord(a: int, b: int, c: int, d: int, i: int) -> int {
    trunc_div(bsp_num(a, b, c, d, i), 6_000_000)
}

/// Numerator of a Catmull-Rom (cardinal, tension 1/2) coordinate at
/// parameter `i / 100` over the window `a, b, c, d`, scaled by `2 * 100^3`:
/// the Hermite form through `b` and `c` with tangents `(c - a) / 2` and
/// `(d - b) / 2`.
pub open spec fn card_num(a: int, b: int, c: int, d: int, i: int) -> int {
    (2 * ((i * i) * i) - 300 * (i * i) + 1_000_000) * (2 * b)
        + (((i * i) * i) - 200 * (i * i) + 10_000 * i) * (c - a)
        + (300 * (i * i) - 2 * ((i * i) * i)) * (2 * c)
        + (((i * i) * i) - 100 * (i * i)) * (d - b)
}

pub open spec fn card_coord(a: int, b: int, c: int, d: int, i: int) -> int {
    trunc_div(card_num(a, b, c, d, i), 2_000_000)
}

fn bez_coord_exec(a: i64, b: i64, c: i64, d: i64, i: i64) -> (r: i64)
    requires
        0 <= i <= 100,
        coord_in_range(a as int),
        coord_in_range(b as int),
        coord_in_range(c as int),
        coord_in_range(d as int),
    ensures
        r as int == bez_coord(a as int, b as int, c as int, d as int, i as int),
{
    let ii: i128 = i as i128;
    let jj: i128 = 100 - ii;
    let aa: i128 = a as i128;
    let bb: i128 = b as i128;
    let cc: i128 = c as i128;
    let dd: i128 = d as i128;
    proof {
        lemma_mul_bound(jj as int, jj as int, 100, 100);
        lemma_mul_bound(ii as int, ii as int, 100, 100);
    }
    let j2: i128 = jj * jj;
    let i2: i128 = ii * ii;
    proof {
        lemma_mul_bound(j2 as int, jj as int, 10_000, 100);
        lemma_mul_bound(j2 as int, ii as int, 10_000, 100);
        lemma_mul_bound(i2 as int, ii as int, 10_000, 100);
        lemma_mul_bound(jj as int, ii as int, 100, 100);
    }
    let j3: i128 = j2 * jj;
    let j2i: i128 = j2 * ii;
    let ji: i128 = jj * ii;
    let i3: i128 = i2 * ii;
    proof {
        lemma_mul_bound(ji as int, ii as int, 10_000, 100);
    }
    let ji2: i128 = ji * ii;
    proof {
        lemma_mul_bound(j3 as int, aa as int, 1_000_000, MAX_COORD as int);
        lemma_mul_bound(j2i as int, bb as int, 1_000_000, MAX_COORD as int);
        lemma_mul_bound(ji2 as int, cc as int, 1_000_000, MAX_COORD as int);
        lemma_mul_bound(i3 as int, dd as int, 1_000_000, MAX_COORD as int);
    }
    let num: i128 = j3 * aa + 3 * (j2i * bb) + 3 * (ji2 * cc) + i3 * dd;
    let q: i128 = div_trunc(num, 1_000_000);
    proof {
        lemma_trunc_div_bound(num as int, 1_000_000, 8 * MAX_COORD as int);
    }
    q as i64
}

fn bsp_coord_exec(a: i64, b: i64, c: i64, d: i64, i: i64) -> (r: i64)
    requires
        0 <= i <= 100,
        coord_in_range(a as int),
        coord_in_range(b as int),
        coord_in_range(c as int),
        coord_in_range(d as int),
    ensures
        r as int == bsp_coord(a as int, b as int, c as int, d as int, i as int),
{
    let ii: i128 = i as i128;
    let jj: i128 = 100 - ii;
    let aa: i128 = a as i128;
    let bb: i128 = b as i128;
    let cc: i128 = c as i128;
    let dd: i128 = d as i128;
    proof {
        lemma_mul_bound(jj as int, jj as int, 100, 100);
        lemma_mul_bound(ii as int, ii as int, 100, 100);
    }
    let j2: i128 = jj * jj;
    let i2: i128 = ii * ii;
    proof {
        lemma_mul_bound(j2 as int, jj as int, 10_000, 100);
        lemma_mul_bound(i2 as int, ii as int, 10_000, 100);
    }
    let j3: i128 = j2 * jj;
    let i3: i128 = i2 * ii;
    let cb: i128 = 3 * i3 - 600 * i2 + 4_000_000;
    let cc_coef: i128 = 1_000_000 + 30_000 * ii + 300 * i2 - 3 * i3;
    proof {
        lemma_mul_bound(j3 as int, aa as int, 1_000_000, MAX_COORD as int);
        lemma_mul_bound(cb as int, bb as int, 13_000_000, MAX_COORD as int);
        lemma_mul_bound(cc_coef as int, cc as int, 10_000_000, MAX_COORD as int);
        lemma_mul_bound(i3 as int, dd as int, 1_000_000, MAX_COORD as int);
    }
    let num: i128 = j3 * aa + cb * bb + cc_coef * cc + i3 * dd;
    let q: i128 = div_trunc(num, 6_000_000);
    proof {
        lemma_trunc_div_bound(num as int, 6_000_000, 5 * MAX_COORD as int);
    }
    q as i64
}

fn card_coord_exec(a: i64, b: i64, c: i64, d: i64, i: i64) -> (r: i64)
    requires
        0 <= i <= 100,
        -3 * MAX_COORD <= a <= 3 * MAX_COORD,
        -3 * MAX_COORD <= b <= 3 * MAX_COORD,
        -3 * MAX_COORD <= c <= 3 * MAX_COORD,
        -3 * MAX_COORD <= d <= 3 * MAX_COORD,
    ensures
        r as int == card_coord(a as int, b as int, c as int, d as int, i as int),
{
    let ii: i128 = i as i128;
    let aa: i128 = a as i128;
    let bb: i128 = b as i128;
    let cc: i128 = c as i128;
    let dd: i128 = d as i128;
    proof {
        lemma_mul_bound(ii as int, ii as int, 100, 100);
    }
    let i2: i128 = ii * ii;
    proof {
        lemma_mul_bound(i2 as int, ii as int, 10_000, 100);
    }
    let i3: i128 = i2 * ii;
    let c1: i128 = 2 * i3 - 300 * i2 + 1_000_000;
    let c2: i128 = i3 - 200 * i2 + 10_000 * ii;
    let c3: i128 = 300 * i2 - 2 * i3;
    let c4: i128 = i3 - 100 * i2;
    proof {
        lemma_mul_bound(c1 as int, 2 * bb as int, 6_000_000, 6 * MAX_COORD as int);
        lemma_mul_bound(c2 as int, cc as int - aa as int, 4_000_000, 6 * MAX_COORD as int);
        lemma_mul_bound(c3 as int, 2 * cc as int, 5_000_000, 6 * MAX_COORD as int);
        lemma_mul_bound(c4 as int, dd as int - bb as int, 2_000_000, 6 * MAX_COORD as int);
    }
    let num: i128 = c1 * (2 * bb) + c2 * (cc - aa) + c3 * (2 * cc) + c4 * (dd - bb);
    let q: i128 = div_trunc(num, 2_000_000);
    proof {
        lemma_trunc_div_bound(num as int, 2_000_000, 51 * MAX_COORD as int);
    }
    q as i64
}

// ---------------------------------------------------------------------------
// Sample placement: which segment a sample index falls in.
// ---------------------------------------------------------------------------

/// Segment holding sample `j` of a curve with `segs` segments: samples walk
/// 100 steps through each segment, and the final sample closes the last one.
pub open spec fn sample_seg(j: int, segs: int) -> int
    recommends
        segs >= 1,
        0 <= j <= 100 * segs,
{
    if j / 100 < segs {
        j / 100
    } else {
        segs - 1
    }
}

pub open spec fn sample_step(j: int, segs: int) -> int {
    j - 100 * sample_seg(j, segs)
}

// ---------------------------------------------------------------------------
// Whole-curve specifications.
// ---------------------------------------------------------------------------

/// The control polygon: the points themselves, in order.
pub open spec fn spec_tessellate_linestrip(s: Seq<Point>) -> Seq<Point> {
    s
}

pub open spec fn bezier_sample(s: Seq<Point>, j: int) -> Point {
    Point {
        x: bez_coord(s[0].x as int, s[1].x as int, s[2].x as int, s[3].x as int, j) as i64,
        y: bez_coord(s[0].y as int, s[1].y as int, s[2].y as int, s[3].y as int, j) as i64,
    }
}

/// One cubic Bezier segment through the first and last of exactly four
/// points; any other count yields no samples at all.
pub open spec fn spec_tessellate_bezier(s: Seq<Point>) -> Seq<Point> {
    if s.len() == 4 {
        Seq::new(101, |j: int| bezier_sample(s, j))
    } else {
        Seq::empty()
    }
}

pub open spec fn bspline_seg_count(n: int) -> int {
    if n >= 4 {
        n - 3
    } else {
        0
    }
}

pub open spec fn bspline_sample(s: Seq<Point>, j: int) -> Point {
    let segs = bspline_seg_count(s.len() as int);
    let k = sample_seg(j, segs);
    let i = sample_step(j, segs);
    Point {
        x: bsp_coord(
            s[k].x as int,
            s[k + 1].x as int,
            s[k + 2].x as int,
            s[k + 3].x as int,
            i,
        ) as i64,
        y: bsp_coord(
            s[k].y as int,
            s[k + 1].y as int,
            s[k + 2].y as int,
            s[k + 3].y as int,
            i,
        ) as i64,
    }
}

/// Uniform cubic B-spline over every window of four consecutive points:
/// `n - 3` segments once four points are present, nothing below that.
pub open spec fn spec_tessellate_bspline(s: Seq<Point>) -> Seq<Point> {
    let segs = bspline_seg_count(s.len() as int);
    if segs >= 1 {
        Seq::new((100 * segs + 1) as nat, |j: int| bspline_sample(s, j))
    } else {
        Seq::empty()
    }
}

pub open spec fn cardinal_seg_count(n: int) -> int {
    if n >= 2 {
        n - 1
    } else {
        0
    }
}

/// The neighbour a boundary segment borrows: the first (or last) point
/// mirrored through its successor (or predecessor).
pub open spec fn mirror(p: Point, q: Point) -> Point {
    Point { x: (2 * p.x - q.x) as i64, y: (2 * p.y - q.y) as i64 }
}

/// The four points driving cardinal segment `k`: the pair it joins plus one
/// neighbour on each side, mirrored at the ends of the sequence.
pub open spec fn cardinal_window(s: Seq<Point>, k: int) -> (Point, Point, Point, Point) {
    let q0 = if k == 0 {
        mirror(s[0], s[1])
    } else {
        s[k - 1]
    };
    let q3 = if k + 2 == s.len() {
        mirror(s[s.len() - 1], s[s.len() - 2])
    } else {
        s[k + 2]
    };
    (q0, s[k], s[k + 1], q3)
}

pub open spec fn cardinal_sample(s: Seq<Point>, j: int) -> Point {
    let segs = cardinal_seg_count(s.len() as int);
    let k = sample_seg(j, segs);
    let i = sample_step(j, segs);
    let w = cardinal_window(s, k);
    Point {
        x: card_coord(w.0.x as int, w.1.x as int, w.2.x as int, w.3.x as int, i) as i64,
        y: card_coord(w.0.y as int, w.1.y as int, w.2.y as int, w.3.y as int, i) as i64,
    }
}

/// Catmull-Rom cardinal spline: one segment between each consecutive pair
/// of points, so `n - 1` segments once two points are present.
pub open spec fn spec_tessellate_cardinal(s: Seq<Point>) -> Seq<Point> {
    let segs = cardinal_seg_count(s.len() as int);
    if segs >= 1 {
        Seq::new((100 * segs + 1) as nat, |j: int| cardinal_sample(s, j))
    } else {
        Seq::empty()
    }
}

// ---------------------------------------------------------------------------
// Laws of the evaluator.
// ---------------------------------------------------------------------------

/// Below two control points neither smooth spline has a segment: both
/// tessellations are empty.
pub proof fn lemma_short_input_empty(s: Seq<Point>)
    requires
        s.len() < 2,
    ensures
        spec_tessellate_bspline(s) == Seq::<Point>::empty(),
        spec_tessellate_cardinal(s) == Seq::<Point>::empty(),
{
}

/// The Bezier tessellation has exactly `100 + 1` samples at four points —
/// one segment, sampled at 100 steps — and none at any other count.
pub proof fn lemma_bezier_sample_count(s: Seq<Point>)
    ensures
        s.len() == 4 ==> spec_tessellate_bezier(s).len() == 101,
        s.len() != 4 ==> spec_tessellate_bezier(s).len() == 0,
{
}

/// Every tessellation is a function of the input sequence alone, so two
/// calls on the same unmutated points return identical polylines.
pub proof fn lemma_tessellation_idempotent(
    s: Seq<Point>,
    strip1: Seq<Point>,
    strip2: Seq<Point>,
    bsp1: Seq<Point>,
    bsp2: Seq<Point>,
    card1: Seq<Point>,
    card2: Seq<Point>,
    bez1: Seq<Point>,
    bez2: Seq<Point>,
)
    requires
        strip1 == spec_tessellate_linestrip(s),
        strip2 == spec_tessellate_linestrip(s),
        bsp1 == spec_tessellate_bspline(s),
        bsp2 == spec_tessellate_bspline(s),
        card1 == spec_tessellate_cardinal(s),
        card2 == spec_tessellate_cardinal(s),
        bez1 == spec_tessellate_bezier(s),
        bez2 == spec_tessellate_bezier(s),
    ensures
        strip1 == strip2,
        bsp1 == bsp2,
        card1 == card2,
        bez1 == bez2,
{
}

/// The cardinal spline interpolates every control point exactly: sample
/// `100 * k` of the tessellation is control point `k` itself, with no
/// rounding error, because the node numerators are exact multiples of the
/// denominator.
pub proof fn lemma_cardinal_interpolates(s: Seq<Point>, k: int)
    requires
        s.len() >= 2,
        0 <= k < s.len(),
    ensures
        spec_tessellate_cardinal(s).len() == 100 * (s.len() - 1) + 1,
        spec_tessellate_cardinal(s)[100 * k] == s[k],
{
    let segs = cardinal_seg_count(s.len() as int);
    let j = 100 * k;
    lemma_div_multiples_vanish(k, 100);
    assert(j / 100 == k);
    if k < segs {
        assert(sample_seg(j, segs) == k);
        let w = cardinal_window(s, k);
        assert(card_num(w.0.x as int, w.1.x as int, w.2.x as int, w.3.x as int, 0)
            == (w.1.x as int) * 2_000_000) by (nonlinear_arith);
        assert(card_num(w.0.y as int, w.1.y as int, w.2.y as int, w.3.y as int, 0)
            == (w.1.y as int) * 2_000_000) by (nonlinear_arith);
        lemma_trunc_div_exact(w.1.x as int, 2_000_000);
        lemma_trunc_div_exact(w.1.y as int, 2_000_000);
        assert(cardinal_sample(s, j) == s[k]);
    } else {
        assert(k == segs);
        assert(sample_seg(j, segs) == segs - 1);
        assert(sample_step(j, segs) == 100);
        let w = cardinal_window(s, segs - 1);
        assert(w.2 == s[k]);
        assert(card_num(w.0.x as int, w.1.x as int, w.2.x as int, w.3.x as int, 100)
            == (w.2.x as int) * 2_000_000) by (nonlinear_arith);
        assert(card_num(w.0.y as int, w.1.y as int, w.2.y as int, w.3.y as int, 100)
            == (w.2.y as int) * 2_000_000) by (nonlinear_arith);
        lemma_trunc_div_exact(w.2.x as int, 2_000_000);
        lemma_trunc_div_exact(w.2.y as int, 2_000_000);
        assert(cardinal_sample(s, j) == s[k]);
    }
}

// ---------------------------------------------------------------------------
// Executable tessellation.
// ---------------------------------------------------------------------------

/// The control polygon as a fresh polyline.
pub fn tessellate_linestrip(points: &Vec<Point>) -> (r: Vec<Point>)
    ensures
        r@ == spec_tessellate_linestrip(points@),
{
    let mut out: Vec<Point> = Vec::new();
    let mut idx: usize = 0;
    while idx < points.len()
        invariant
            idx <= points.len(),
            out@ == points@.subrange(0, idx as int),
        decreases points.len() - idx,
    {
        out.push(points[idx]);
        proof {
            assert(out@ =~= points@.subrange(0, idx + 1));
        }
        idx += 1;
    }
    proof {
        assert(out@ =~= points@);
    }
    out
}

/// Tessellates the single cubic Bezier segment defined by exactly four
/// points; for any other count the result is empty.
pub fn tessellate_bezier(points: &Vec<Point>) -> (r: Vec<Point>)
    requires
        points_in_range(points@),
    ensures
        r@ == spec_tessellate_bezier(points@),
{
    let mut out: Vec<Point> = Vec::new();
    if points.len() != 4 {
        return out;
    }
    let mut j: usize = 0;
    while j <= 100
        invariant
            points@.len() == 4,
            points_in_range(points@),
            j <= 101,
            out@.len() == j,
            forall|jj: int| 0 <= jj < j ==> out@[jj] == bezier_sample(points@, jj),
        decreases 101 - j,
    {
        let x = bez_coord_exec(points[0].x, points[1].x, points[2].x, points[3].x, j as i64);
        let y = bez_coord_exec(points[0].y, points[1].y, points[2].y, points[3].y, j as i64);
        out.push(Point { x, y });
        j += 1;
    }
    proof {
        assert(out@ =~= spec_tessellate_bezier(points@));
    }
    out
}

/// Tessellates the uniform cubic B-spline through the points: empty until
/// four points are present, then 100 samples per window of four.
pub fn tessellate_bspline(points: &Vec<Point>) -> (r: Vec<Point>)
    requires
        points_in_range(points@),
        points@.len() <= MAX_POINTS,
    ensures
        r@ == spec_tessellate_bspline(points@),
{
    let mut out: Vec<Point> = Vec::new();
    if points.len() < 4 {
        return out;
    }
    let segs: usize = points.len() - 3;
    let total: usize = 100 * segs;
    let ghost gsegs: int = bspline_seg_count(points@.len() as int);
    let mut j: usize = 0;
    while j <= total
        invariant
            points@.len() >= 4,
            points_in_range(points@),
            gsegs == bspline_seg_count(points@.len() as int),
            segs == gsegs,
            total == 100 * segs,
            total <= 1_000_000_000,
            j <= total + 1,
            out@.len() == j,
            forall|jj: int| 0 <= jj < j ==> out@[jj] == bspline_sample(points@, jj),
        decreases total + 1 - j,
    {
        let mut k: usize = j / 100;
        if k >= segs {
            k = segs - 1;
        }
        proof {
            assert(k == sample_seg(j as int, gsegs));
            assert(sample_step(j as int, gsegs) == j - 100 * k);
            assert(0 <= j as int - 100 * (k as int) <= 100);
        }
        let i: usize = j - 100 * k;
        let x = bsp_coord_exec(
            points[k].x,
            points[k + 1].x,
            points[k + 2].x,
            points[k + 3].x,
            i as i64,
        );
        let y = bsp_coord_exec(
            points[k].y,
            points[k + 1].y,
            points[k + 2].y,
            points[k + 3].y,
            i as i64,
        );
        out.push(Point { x, y });
        j += 1;
    }
    proof {
        assert(out@ =~= spec_tessellate_bspline(points@));
    }
    out
}

fn mirror_exec(p: Point, q: Point) -> (r: Point)
    requires
        point_in_range(p),
        point_in_range(q),
    ensures
        r == mirror(p, q),
        -3 * MAX_COORD <= r.x <= 3 * MAX_COORD,
        -3 * MAX_COORD <= r.y <= 3 * MAX_COORD,
{
    Point { x: 2 * p.x - q.x, y: 2 * p.y - q.y }
}

/// Tessellates the Catmull-Rom cardinal spline through the points: empty
/// below two points, then 100 samples per consecutive pair.
pub fn tessellate_cardinal(points: &Vec<Point>) -> (r: Vec<Point>)
    requires
        points_in_range(points@),
        points@.len() <= MAX_POINTS,
    ensures
        r@ == spec_tessellate_cardinal(points@),
{
    let mut out: Vec<Point> = Vec::new();
    if points.len() < 2 {
        return out;
    }
    let segs: usize = points.len() - 1;
    let total: usize = 100 * segs;
    let ghost gsegs: int = cardinal_seg_count(points@.len() as int);
    let mut j: usize = 0;
    while j <= total
        invariant
            points@.len() >= 2,
            points_in_range(points@),
            gsegs == cardinal_seg_count(points@.len() as int),
            segs == gsegs,
            total == 100 * segs,
            total <= 1_000_000_000,
            j <= total + 1,
            out@.len() == j,
            forall|jj: int| 0 <= jj < j ==> out@[jj] == cardinal_sample(points@, jj),
        decreases total + 1 - j,
    {
        let mut k: usize = j / 100;
        if k >= segs {
            k = segs - 1;
        }
        proof {
            assert(k == sample_seg(j as int, gsegs));
            assert(sample_step(j as int, gsegs) == j - 100 * k);
            assert(0 <= j as int - 100 * (k as int) <= 100);
        }
        let i: usize = j - 100 * k;
        let q1 = points[k];
        let q2 = points[k + 1];
        let q0 = if k == 0 {
            mirror_exec(points[0], points[1])
        } else {
            points[k - 1]
        };
        let q3 = if k + 2 == points.len() {
            mirror_exec(points[points.len() - 1], points[points.len() - 2])
        } else {
            points[k + 2]
        };
        proof {
            assert((q0, q1, q2, q3) == cardinal_window(points@, k as int));
        }
        let x = card_coord_exec(q0.x, q1.x, q2.x, q3.x, i as i64);
        let y = card_coord_exec(q0.y, q1.y, q2.y, q3.y, i as i64);
        out.push(Point { x, y });
        j += 1;
    }
    proof {
        assert(out@ =~= spec_tessellate_cardinal(points@));
    }
    out
}

} // verus!
