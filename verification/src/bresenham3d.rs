//! Exact three-dimensional rasterization of a straight line segment.
//!
//! `line` returns every grid cell on the discrete straight path between
//! two integer points, endpoints included. The path has exactly
//! `max(|dx|, |dy|, |dz|) + 1` cells: the axis with the largest absolute
//! delta advances by one cell per emitted point, and the two other axes
//! follow it by classic Bresenham error diffusion. The whole path is
//! pinned down in closed form by `line_spec`.

use vstd::arithmetic::div_mod::{
    lemma_div_is_ordered, lemma_div_pos_is_pos, lemma_fundamental_div_mod,
    lemma_fundamental_div_mod_converse, lemma_mod_bound,
};
use vstd::prelude::*;

use crate::model::{in_i32, lemma_pts_push, pts, Point3, SpecPoint};

verus! {

/// Absolute value of an integer delta.
pub open spec fn abs_val(d: int) -> int {
    if d < 0 {
        -d
    } else {
        d
    }
}

/// Direction in which an axis with delta `d` steps; an axis with a zero
/// delta nominally steps forward but never actually moves.
pub open spec fn step_sign(d: int) -> int {
    if d < 0 {
        -1
    } else {
        1
    }
}

/// The largest of three values, ties resolved leftmost-first.
pub open spec fn max3(a: int, b: int, c: int) -> int {
    if a >= b && a >= c {
        a
    } else if b >= c {
        b
    } else {
        c
    }
}

/// The number of iterations of the rasterization loop: the largest
/// absolute coordinate delta between the two endpoints.
pub open spec fn max_delta(p: SpecPoint, q: SpecPoint) -> int {
    max3(abs_val(q.x - p.x), abs_val(q.y - p.y), abs_val(q.z - p.z))
}

/// How many unit steps an axis with absolute delta `a` has taken after
/// `i` iterations of a rasterization driven by the delta `l`. This is
/// the closed form of Bresenham error diffusion: the error accumulator
/// for the axis starts at `2a - l`, gains `2a` per iteration, and loses
/// `2l` whenever it is positive, which is exactly when the axis steps.
pub open spec fn sec_steps(a: int, l: int, i: int) -> int {
    (2 * a * i + l - 1) / (2 * l)
}

/// The `i`-th cell of the discrete path from `p` to `q`, valid when the
/// path is longer than a single cell.
pub open spec fn line_point(p: SpecPoint, q: SpecPoint, i: int) -> SpecPoint {
    let l = max_delta(p, q);
    SpecPoint {
        x: p.x + step_sign(q.x - p.x) * sec_steps(abs_val(q.x - p.x), l, i),
        y: p.y + step_sign(q.y - p.y) * sec_steps(abs_val(q.y - p.y), l, i),
        z: p.z + step_sign(q.z - p.z) * sec_steps(abs_val(q.z - p.z), l, i),
    }
}

/// The discrete straight path from `p` to `q`, both endpoints included:
/// `max(|dx|, |dy|, |dz|) + 1` cells, the `i`-th given by `line_point`.
pub open spec fn line_spec(p: SpecPoint, q: SpecPoint) -> Seq<SpecPoint> {
    if max_delta(p, q) == 0 {
        seq![p]
    } else {
        Seq::new((max_delta(p, q) + 1) as nat, |i: int| line_point(p, q, i))
    }
}

proof fn lemma_sec_steps_zero(a: int, l: int)
    requires
        1 <= l,
        0 <= a <= l,
    ensures
        sec_steps(a, l, 0) == 0,
{
    assert(2 * a * 0 == 0) by (nonlinear_arith);
    lemma_fundamental_div_mod_converse(l - 1, 2 * l, 0, l - 1);
}

proof fn lemma_sec_steps_full(a: int, l: int)
    requires
        1 <= l,
        0 <= a <= l,
    ensures
        sec_steps(a, l, l) == a,
{
    assert(2 * a * l + l - 1 == a * (2 * l) + (l - 1)) by (nonlinear_arith);
    lemma_fundamental_div_mod_converse(2 * a * l + l - 1, 2 * l, a, l - 1);
}

proof fn lemma_sec_steps_bounds(a: int, l: int, i: int)
    requires
        1 <= l,
        0 <= a <= l,
        0 <= i <= l,
    ensures
        0 <= sec_steps(a, l, i) <= a,
{
    assert(0 <= 2 * a * i && 2 * a * i <= 2 * a * l) by (nonlinear_arith)
        requires
            0 <= a,
            0 <= i <= l,
    ;
    lemma_div_pos_is_pos(2 * a * i + l - 1, 2 * l);
    lemma_div_is_ordered(2 * a * i + l - 1, 2 * a * l + l - 1, 2 * l);
    lemma_sec_steps_full(a, l);
}

/// One iteration of error diffusion: the step count grows by one exactly
/// when the accumulator `2a(i+1) - l - 2l * sec_steps(a, l, i)` is
/// positive, and that accumulator stays within `[2a - 2l + 1, 2a]`.
proof fn lemma_sec_steps_step(a: int, l: int, i: int)
    requires
        1 <= l,
        0 <= a <= l,
        0 <= i,
    ensures
        ({
            let s = sec_steps(a, l, i);
            let e = 2 * a * (i + 1) - l - 2 * l * s;
            let s2 = sec_steps(a, l, i + 1);
            let e2 = 2 * a * (i + 2) - l - 2 * l * s2;
            &&& s2 == s + (if e > 0 {
                1int
            } else {
                0int
            })
            &&& e2 == (if e > 0 {
                e - 2 * l
            } else {
                e
            }) + 2 * a
            &&& 2 * a - 2 * l + 1 <= e <= 2 * a
        }),
{
    let n = 2 * a * i + l - 1;
    let s = sec_steps(a, l, i);
    lemma_fundamental_div_mod(n, 2 * l);
    lemma_mod_bound(n, 2 * l);
    let r = n % (2 * l);
    assert(n == 2 * l * s + r);
    assert(2 * a * (i + 1) == 2 * a * i + 2 * a) by (nonlinear_arith);
    assert(2 * a * (i + 2) == 2 * a * i + 4 * a) by (nonlinear_arith);
    let e = 2 * a * (i + 1) - l - 2 * l * s;
    assert(e == r + 2 * a - 2 * l + 1);
    if e > 0 {
        assert(n + 2 * a == (s + 1) * (2 * l) + (r + 2 * a - 2 * l)) by (nonlinear_arith)
            requires
                n == 2 * l * s + r,
        ;
        lemma_fundamental_div_mod_converse(n + 2 * a, 2 * l, s + 1, r + 2 * a - 2 * l);
        assert(2 * l * (s + 1) == 2 * l * s + 2 * l) by (nonlinear_arith);
    } else {
        assert(n + 2 * a == s * (2 * l) + (r + 2 * a)) by (nonlinear_arith)
            requires
                n == 2 * l * s + r,
        ;
        lemma_fundamental_div_mod_converse(n + 2 * a, 2 * l, s, r + 2 * a);
    }
}

/// Both endpoints are on the path: it has exactly
/// `max(|dx|, |dy|, |dz|) + 1` cells, starts at `p` and ends at `q`.
pub proof fn lemma_line_spec_endpoints(p: SpecPoint, q: SpecPoint)
    ensures
        line_spec(p, q).len() == max_delta(p, q) + 1,
        line_spec(p, q).first() == p,
        line_spec(p, q).last() == q,
{
    let l = max_delta(p, q);
    if l == 0 {
        assert(line_spec(p, q).last() =~= q);
        assert(line_spec(p, q).first() =~= p);
    } else {
        lemma_sec_steps_zero(abs_val(q.x - p.x), l);
        lemma_sec_steps_zero(abs_val(q.y - p.y), l);
        lemma_sec_steps_zero(abs_val(q.z - p.z), l);
        lemma_sec_steps_full(abs_val(q.x - p.x), l);
        lemma_sec_steps_full(abs_val(q.y - p.y), l);
        lemma_sec_steps_full(abs_val(q.z - p.z), l);
        assert(line_point(p, q, l) =~= q);
        assert(line_point(p, q, 0) =~= p);
        assert(line_spec(p, q).last() == line_spec(p, q)[l]);
    }
}

/// A degenerate segment rasterizes to its single endpoint.
pub proof fn lemma_line_spec_single(p: SpecPoint)
    ensures
        line_spec(p, p) == seq![p],
{
}

/// Every cell of the path lies in the axis-aligned bounding box of the
/// two endpoints.
pub proof fn lemma_line_spec_in_bbox(p: SpecPoint, q: SpecPoint, i: int)
    requires
        0 <= i < line_spec(p, q).len(),
    ensures
        between(p.x, line_spec(p, q)[i].x, q.x),
        between(p.y, line_spec(p, q)[i].y, q.y),
        between(p.z, line_spec(p, q)[i].z, q.z),
{
    let l = max_delta(p, q);
    if l == 0 {
        assert(q.x == p.x && q.y == p.y && q.z == p.z);
    } else {
        assert(line_spec(p, q)[i] == line_point(p, q, i));
        lemma_sec_steps_bounds(abs_val(q.x - p.x), l, i);
        lemma_sec_steps_bounds(abs_val(q.y - p.y), l, i);
        lemma_sec_steps_bounds(abs_val(q.z - p.z), l, i);
    }
}

/// Whether `v` lies between `a` and `b`, whichever of the two is larger.
pub open spec fn between(a: int, v: int, b: int) -> bool {
    (a <= v <= b) || (b <= v <= a)
}

/// Reversal symmetry holds except when some axis's error accumulator
/// ties exactly at the half-step boundary: this predicate rules those
/// ties out. It fails, for instance, for the pair `(0, 0, 0)` and
/// `(4, 2, 0)`, whose forward path differs from the reversed backward
/// path in its interior cells.
pub open spec fn axis_tie_free(a: int, l: int) -> bool {
    forall|j: int| 0 <= j <= l ==> #[trigger] ((2 * a * j) % (2 * l)) != l
}

/// Precondition of `lemma_line_reversal`: no axis ties at a half-step
/// boundary anywhere along the path.
pub open spec fn reversal_tie_free(p: SpecPoint, q: SpecPoint) -> bool {
    let l = max_delta(p, q);
    l == 0 || (axis_tie_free(abs_val(q.x - p.x), l) && axis_tie_free(abs_val(q.y - p.y), l)
        && axis_tie_free(abs_val(q.z - p.z), l))
}

/// On a tie-free segment the step counts taken from the two ends meet in
/// the middle: `sec_steps(i)` from one end and `sec_steps(l - i)` from
/// the other always sum to the full `a` steps of the axis.
proof fn lemma_sec_steps_complement(a: int, l: int, i: int)
    requires
        1 <= l,
        0 <= a <= l,
        0 <= i <= l,
        (2 * a * i) % (2 * l) != l,
    ensures
        sec_steps(a, l, i) + sec_steps(a, l, l - i) == a,
{
    let b = 2 * a * i;
    let s = sec_steps(a, l, i);
    lemma_fundamental_div_mod(b + l - 1, 2 * l);
    lemma_mod_bound(b + l - 1, 2 * l);
    let r = (b + l - 1) % (2 * l);
    assert(b + l - 1 == 2 * l * s + r);
    if r == 2 * l - 1 {
        assert(b == s * (2 * l) + l) by (nonlinear_arith)
            requires
                b + l - 1 == 2 * l * s + r,
                r == 2 * l - 1,
        ;
        lemma_fundamental_div_mod_converse(b, 2 * l, s, l);
        assert(false);
    }
    assert(2 * a * (l - i) + l - 1 == (a - s) * (2 * l) + (2 * l - 2 - r)) by (nonlinear_arith)
        requires
            b == 2 * a * i,
            b + l - 1 == 2 * l * s + r,
    ;
    lemma_fundamental_div_mod_converse(2 * a * (l - i) + l - 1, 2 * l, a - s, 2 * l - 2 - r);
}

/// Rasterization is symmetric under endpoint swap, up to reversal, on
/// every tie-free segment (see `reversal_tie_free`; on tying segments
/// the two paths genuinely differ, so those are excluded).
pub proof fn lemma_line_reversal(p: SpecPoint, q: SpecPoint)
    requires
        reversal_tie_free(p, q),
    ensures
        line_spec(p, q) == line_spec(q, p).reverse(),
{
    let l = max_delta(p, q);
    assert(max_delta(q, p) == l);
    if l == 0 {
        assert(q.x == p.x && q.y == p.y && q.z == p.z);
        assert(line_spec(q, p).reverse() =~= line_spec(p, q));
    } else {
        let fwd = line_spec(p, q);
        let bwd = line_spec(q, p);
        assert forall|i: int| 0 <= i <= l implies fwd[i] == bwd.reverse()[i] by {
            assert(bwd.reverse()[i] == bwd[l - i]);
            lemma_rev_coord(p.x, q.x, l, i);
            lemma_rev_coord(p.y, q.y, l, i);
            lemma_rev_coord(p.z, q.z, l, i);
        }
        assert(fwd =~= bwd.reverse());
    }
}

/// One coordinate of the reversal argument: walking `i` of `l`
/// iterations from `px` toward `qx` reaches the same value as walking
/// the remaining `l - i` from `qx` back toward `px`.
proof fn lemma_rev_coord(px: int, qx: int, l: int, i: int)
    requires
        1 <= l,
        abs_val(qx - px) <= l,
        0 <= i <= l,
        axis_tie_free(abs_val(qx - px), l),
    ensures
        px + step_sign(qx - px) * sec_steps(abs_val(qx - px), l, i) == qx + step_sign(px - qx)
            * sec_steps(abs_val(px - qx), l, l - i),
{
    let a = abs_val(qx - px);
    assert((2 * a * i) % (2 * l) != l);
    lemma_sec_steps_complement(a, l, i);
    lemma_sec_steps_bounds(a, l, i);
    lemma_sec_steps_bounds(a, l, l - i);
}

/// The driving axis, whose absolute delta is the whole iteration
/// count, steps on every single iteration.
proof fn lemma_sec_steps_identity(l: int, i: int)
    requires
        1 <= l,
        0 <= i,
    ensures
        sec_steps(l, l, i) == i,
{
    assert(2 * l * i + l - 1 == i * (2 * l) + (l - 1)) by (nonlinear_arith);
    lemma_fundamental_div_mod_converse(2 * l * i + l - 1, 2 * l, i, l - 1);
}

/// The path never repeats a cell: the driving axis advances by one
/// cell per emitted point, so all points are distinct. (A degenerate
/// segment has a single cell and nothing to repeat.)
pub proof fn lemma_line_spec_no_duplicates(p: SpecPoint, q: SpecPoint)
    ensures
        line_spec(p, q).no_duplicates(),
{
    let l = max_delta(p, q);
    if l != 0 {
        assert forall|i: int, j: int|
            0 <= i < line_spec(p, q).len() && 0 <= j < line_spec(p, q).len() && i != j implies
            line_spec(p, q)[i] != line_spec(p, q)[j] by {
            lemma_sec_steps_identity(l, i);
            lemma_sec_steps_identity(l, j);
            if abs_val(q.x - p.x) == l {
                assert(line_point(p, q, i).x != line_point(p, q, j).x);
            } else if abs_val(q.y - p.y) == l {
                assert(line_point(p, q, i).y != line_point(p, q, j).y);
            } else {
                assert(abs_val(q.z - p.z) == l);
                assert(line_point(p, q, i).z != line_point(p, q, j).z);
            }
        }
    }
}

/// The path has no gaps: each cell is reached from the one before it
/// by at most one unit step on each axis.
pub proof fn lemma_line_spec_connected(p: SpecPoint, q: SpecPoint, i: int)
    requires
        0 <= i,
        i + 1 < line_spec(p, q).len(),
    ensures
        abs_val(line_spec(p, q)[i + 1].x - line_spec(p, q)[i].x) <= 1,
        abs_val(line_spec(p, q)[i + 1].y - line_spec(p, q)[i].y) <= 1,
        abs_val(line_spec(p, q)[i + 1].z - line_spec(p, q)[i].z) <= 1,
{
    let l = max_delta(p, q);
    assert(line_spec(p, q)[i] == line_point(p, q, i));
    assert(line_spec(p, q)[i + 1] == line_point(p, q, i + 1));
    lemma_coord_step(q.x - p.x, l, i);
    lemma_coord_step(q.y - p.y, l, i);
    lemma_coord_step(q.z - p.z, l, i);
}

/// One axis moves by at most one cell between consecutive points.
proof fn lemma_coord_step(d: int, l: int, i: int)
    requires
        1 <= l,
        abs_val(d) <= l,
        0 <= i,
    ensures
        abs_val(step_sign(d) * sec_steps(abs_val(d), l, i + 1) - step_sign(d) * sec_steps(
            abs_val(d),
            l,
            i,
        )) <= 1,
{
    let a = abs_val(d);
    lemma_sec_steps_step(a, l, i);
    let s0 = sec_steps(a, l, i);
    let s1 = sec_steps(a, l, i + 1);
    assert(s1 == s0 || s1 == s0 + 1);
    assert(step_sign(d) * s1 - step_sign(d) * s0 == step_sign(d) * (s1 - s0)) by (nonlinear_arith);
}

/// A coordinate part-way along the path stays between its two endpoint
/// values, so it fits the machine representation whenever they do.
proof fn lemma_coord_in_i32(p0: int, q0: int, l: int, i: int)
    requires
        in_i32(p0),
        in_i32(q0),
        1 <= l,
        abs_val(q0 - p0) <= l,
        0 <= i <= l,
    ensures
        in_i32(p0 + step_sign(q0 - p0) * sec_steps(abs_val(q0 - p0), l, i)),
        between(p0, p0 + step_sign(q0 - p0) * sec_steps(abs_val(q0 - p0), l, i), q0),
{
    lemma_sec_steps_bounds(abs_val(q0 - p0), l, i);
}

/// Every grid cell on the discrete straight path from `p` to `q`, both
/// endpoints included, in path order: the sequence pinned down by
/// `line_spec`. Pure; no input is invalid.
#[verifier::rlimit(80)]
pub fn line(p: Point3, q: Point3) -> (r: Vec<Point3>)
    ensures
        pts(r@) == line_spec(p@, q@),
{
    let dx: i64 = q.x as i64 - p.x as i64;
    let dy: i64 = q.y as i64 - p.y as i64;
    let dz: i64 = q.z as i64 - p.z as i64;

    let l: i64 = if dx < 0 { -dx } else { dx };
    let m: i64 = if dy < 0 { -dy } else { dy };
    let n: i64 = if dz < 0 { -dz } else { dz };

    let big: i64 = if l >= m && l >= n { l } else if m >= n { m } else { n };

    let mut voxels: Vec<Point3> = Vec::new();

    if big == 0 {
        voxels.push(p);
        proof {
            assert(pts(voxels@) =~= line_spec(p@, q@));
        }
        return voxels;
    }

    let x_inc: i64 = if dx < 0 { -1 } else { 1 };
    let y_inc: i64 = if dy < 0 { -1 } else { 1 };
    let z_inc: i64 = if dz < 0 { -1 } else { 1 };

    let mut cx: i64 = p.x as i64;
    let mut cy: i64 = p.y as i64;
    let mut cz: i64 = p.z as i64;

    let mut err_x: i64 = 2 * l - big;
    let mut err_y: i64 = 2 * m - big;
    let mut err_z: i64 = 2 * n - big;

    proof {
        assert(l <= big && m <= big && n <= big);
        lemma_sec_steps_zero(l as int, big as int);
        lemma_sec_steps_zero(m as int, big as int);
        lemma_sec_steps_zero(n as int, big as int);
        assert(step_sign(dx as int) * sec_steps(l as int, big as int, 0) == 0) by (nonlinear_arith)
            requires
                sec_steps(l as int, big as int, 0) == 0,
        ;
        assert(step_sign(dy as int) * sec_steps(m as int, big as int, 0) == 0) by (nonlinear_arith)
            requires
                sec_steps(m as int, big as int, 0) == 0,
        ;
        assert(step_sign(dz as int) * sec_steps(n as int, big as int, 0) == 0) by (nonlinear_arith)
            requires
                sec_steps(n as int, big as int, 0) == 0,
        ;
        assert(2 * (big as int) * sec_steps(l as int, big as int, 0) == 0) by (nonlinear_arith)
            requires
                sec_steps(l as int, big as int, 0) == 0,
        ;
        assert(2 * (big as int) * sec_steps(m as int, big as int, 0) == 0) by (nonlinear_arith)
            requires
                sec_steps(m as int, big as int, 0) == 0,
        ;
        assert(2 * (big as int) * sec_steps(n as int, big as int, 0) == 0) by (nonlinear_arith)
            requires
                sec_steps(n as int, big as int, 0) == 0,
        ;
    }

    let mut i: i64 = 0;
    while i < big
        invariant
            1 <= big <= 0x1_0000_0000i64,
            big as int == max_delta(p@, q@),
            l <= big && m <= big && n <= big,
            dx as int == q@.x - p@.x,
            dy as int == q@.y - p@.y,
            dz as int == q@.z - p@.z,
            l as int == abs_val(dx as int),
            m as int == abs_val(dy as int),
            n as int == abs_val(dz as int),
            x_inc as int == step_sign(dx as int),
            y_inc as int == step_sign(dy as int),
            z_inc as int == step_sign(dz as int),
            0 <= i <= big,
            cx as int == p@.x + step_sign(dx as int) * sec_steps(l as int, big as int, i as int),
            cy as int == p@.y + step_sign(dy as int) * sec_steps(m as int, big as int, i as int),
            cz as int == p@.z + step_sign(dz as int) * sec_steps(n as int, big as int, i as int),
            err_x as int == 2 * (l as int) * (i as int + 1) - big as int - 2 * (big as int)
                * sec_steps(l as int, big as int, i as int),
            err_y as int == 2 * (m as int) * (i as int + 1) - big as int - 2 * (big as int)
                * sec_steps(m as int, big as int, i as int),
            err_z as int == 2 * (n as int) * (i as int + 1) - big as int - 2 * (big as int)
                * sec_steps(n as int, big as int, i as int),
            2 * (l as int) - 2 * (big as int) + 1 <= err_x as int <= 2 * (l as int),
            2 * (m as int) - 2 * (big as int) + 1 <= err_y as int <= 2 * (m as int),
            2 * (n as int) - 2 * (big as int) + 1 <= err_z as int <= 2 * (n as int),
            voxels@.len() == i,
            pts(voxels@) == line_spec(p@, q@).subrange(0, i as int),
        decreases big - i,
    {
        proof {
            lemma_coord_in_i32(p@.x, q@.x, big as int, i as int);
            lemma_coord_in_i32(p@.y, q@.y, big as int, i as int);
            lemma_coord_in_i32(p@.z, q@.z, big as int, i as int);
            assert(line_spec(p@, q@)[i as int] == line_point(p@, q@, i as int));
        }
        let ghost snap = voxels@;
        voxels.push(Point3 { x: cx as i32, y: cy as i32, z: cz as i32 });
        proof {
            lemma_pts_push(snap, Point3 { x: cx as i32, y: cy as i32, z: cz as i32 });
            assert(pts(voxels@) =~= line_spec(p@, q@).subrange(0, i as int + 1));
            lemma_sec_steps_step(l as int, big as int, i as int);
            lemma_sec_steps_step(m as int, big as int, i as int);
            lemma_sec_steps_step(n as int, big as int, i as int);
            lemma_coord_in_i32(p@.x, q@.x, big as int, i as int + 1);
            lemma_coord_in_i32(p@.y, q@.y, big as int, i as int + 1);
            lemma_coord_in_i32(p@.z, q@.z, big as int, i as int + 1);
        }
        if err_x > 0 {
            cx += x_inc;
            err_x -= 2 * big;
        }
        err_x += 2 * l;
        if err_y > 0 {
            cy += y_inc;
            err_y -= 2 * big;
        }
        err_y += 2 * m;
        if err_z > 0 {
            cz += z_inc;
            err_z -= 2 * big;
        }
        err_z += 2 * n;
        i += 1;
    }
    proof {
        lemma_coord_in_i32(p@.x, q@.x, big as int, big as int);
        lemma_coord_in_i32(p@.y, q@.y, big as int, big as int);
        lemma_coord_in_i32(p@.z, q@.z, big as int, big as int);
        assert(line_spec(p@, q@)[big as int] == line_point(p@, q@, big as int));
    }
    let ghost snap = voxels@;
    voxels.push(Point3 { x: cx as i32, y: cy as i32, z: cz as i32 });
    proof {
        lemma_pts_push(snap, Point3 { x: cx as i32, y: cy as i32, z: cz as i32 });
        assert(pts(voxels@) =~= line_spec(p@, q@));
    }
    voxels
}

} // verus!
