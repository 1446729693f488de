//! Shape construction. Every composite shape is built by composing the
//! line rasterizer: a plane sweeps a line along a second vector, a cuboid
//! sweeps a plane along a third, a frame is the four boundary edges of a
//! plane. Spheres and shells enumerate a bounding box and keep the cells
//! selected by an exact integer distance test. Shapes are ordered and may
//! repeat cells; nothing here deduplicates.

use vstd::prelude::*;

use crate::bresenham3d::{
    abs_val, lemma_line_spec_endpoints, lemma_line_spec_in_bbox, line, line_spec, max3,
};
use crate::model::{
    in_i32, lemma_pts_concat, lemma_pts_push, point_in_i32, pts, Point3, SpecPoint, SpecVector,
    Vector3, CUBE_WIDTH,
};

verus! {

/// Flattening one more row appends that row to the flattened prefix.
proof fn lemma_flatten_take_step<A>(rows: Seq<Seq<A>>, i: int)
    requires
        0 <= i < rows.len(),
    ensures
        rows.take(i + 1).flatten() == rows.take(i).flatten() + rows[i],
{
    assert(rows.take(i).push(rows[i]) =~= rows.take(i + 1));
    rows.take(i).lemma_flatten_push(rows[i]);
}

/// The path of the line starting at `pt` with extent `dir`.
pub open spec fn line_path(pt: SpecPoint, dir: SpecVector) -> Seq<SpecPoint> {
    line_spec(pt, pt.add_vec(dir))
}

/// The rows of the parallelogram sheet anchored at `pt` and spanned by
/// `u` and `v`: one line along `v` starting from each cell of the line
/// along `u`.
pub open spec fn plane_rows(pt: SpecPoint, u: SpecVector, v: SpecVector) -> Seq<Seq<SpecPoint>> {
    line_path(pt, u).map_values(|a: SpecPoint| line_spec(a, a.add_vec(v)))
}

/// The parallelogram sheet itself, row by row. Cells near the shared
/// edges may repeat; they are not merged.
pub open spec fn plane_spec(pt: SpecPoint, u: SpecVector, v: SpecVector) -> Seq<SpecPoint> {
    plane_rows(pt, u, v).flatten()
}

/// The four boundary edges of the parallelogram spanned by `u` and `v`,
/// concatenated in construction order.
pub open spec fn frame_spec(pt: SpecPoint, u: SpecVector, v: SpecVector) -> Seq<SpecPoint> {
    line_spec(pt, pt.add_vec(u)) + line_spec(pt, pt.add_vec(v)) + line_spec(
        pt.add_vec(u),
        pt.add_vec(u).add_vec(v),
    ) + line_spec(pt.add_vec(v), pt.add_vec(u).add_vec(v))
}

/// The slabs of the solid parallelepiped spanned by `u`, `v` and `w`:
/// one parallelogram sheet for each cell of the line along `u`.
pub open spec fn cuboid_slabs(
    pt: SpecPoint,
    u: SpecVector,
    v: SpecVector,
    w: SpecVector,
) -> Seq<Seq<SpecPoint>> {
    line_path(pt, u).map_values(|a: SpecPoint| plane_spec(a, v, w))
}

/// The solid parallelepiped of cells, slab by slab.
pub open spec fn cuboid_spec(
    pt: SpecPoint,
    u: SpecVector,
    v: SpecVector,
    w: SpecVector,
) -> Seq<SpecPoint> {
    cuboid_slabs(pt, u, v, w).flatten()
}

/// Machine-limit precondition of the parallelogram shapes: all four
/// corners fit the grid point representation.
pub open spec fn plane_fits(pt: SpecPoint, u: SpecVector, v: SpecVector) -> bool {
    &&& point_in_i32(pt)
    &&& point_in_i32(pt.add_vec(u))
    &&& point_in_i32(pt.add_vec(v))
    &&& point_in_i32(pt.add_vec(u).add_vec(v))
}

/// Machine-limit precondition of the cuboid: all eight corners fit.
pub open spec fn cuboid_fits(pt: SpecPoint, u: SpecVector, v: SpecVector, w: SpecVector) -> bool {
    &&& plane_fits(pt, u, v)
    &&& point_in_i32(pt.add_vec(w))
    &&& point_in_i32(pt.add_vec(u).add_vec(w))
    &&& point_in_i32(pt.add_vec(v).add_vec(w))
    &&& point_in_i32(pt.add_vec(u).add_vec(v).add_vec(w))
}

/// Every cell of the line along `u` can itself be displaced by `v`
/// without leaving the machine representation, because it lies between
/// the corners and the corners fit.
proof fn lemma_row_fits(pt: SpecPoint, u: SpecVector, v: SpecVector, i: int)
    requires
        plane_fits(pt, u, v),
        0 <= i < line_path(pt, u).len(),
    ensures
        point_in_i32(line_path(pt, u)[i]),
        point_in_i32(line_path(pt, u)[i].add_vec(v)),
{
    lemma_line_spec_in_bbox(pt, pt.add_vec(u), i);
}

/// The line from `pt` with extent `dir`: the rasterization of the
/// segment from `pt` to `pt + dir`.
pub fn discrete_line(pt: Point3, dir: Vector3) -> (r: Vec<Point3>)
    requires
        point_in_i32(pt@.add_vec(dir@)),
    ensures
        pts(r@) == line_path(pt@, dir@),
{
    let q = pt.offset(&dir);
    line(pt, q)
}

/// The parallelogram sheet anchored at `pt` and spanned by `u_hat` and
/// `v_hat`: for every cell `a` of the line along `u_hat`, every cell of
/// the line from `a` along `v_hat`, in that order.
pub fn discrete_plane(pt: Point3, u_hat: Vector3, v_hat: Vector3) -> (r: Vec<Point3>)
    requires
        plane_fits(pt@, u_hat@, v_hat@),
    ensures
        pts(r@) == plane_spec(pt@, u_hat@, v_hat@),
{
    let row_starts = line(pt, pt.offset(&u_hat));
    let ghost rows = plane_rows(pt@, u_hat@, v_hat@);
    let mut cells: Vec<Point3> = Vec::new();
    proof {
        assert(rows.take(0).flatten() =~= Seq::<SpecPoint>::empty());
        assert(pts(cells@) =~= Seq::<SpecPoint>::empty());
    }
    let mut ai: usize = 0;
    while ai < row_starts.len()
        invariant
            plane_fits(pt@, u_hat@, v_hat@),
            pts(row_starts@) == line_path(pt@, u_hat@),
            rows == plane_rows(pt@, u_hat@, v_hat@),
            rows.len() == row_starts@.len(),
            0 <= ai <= row_starts.len(),
            pts(cells@) == rows.take(ai as int).flatten(),
        decreases row_starts@.len() - ai,
    {
        let a = row_starts[ai];
        proof {
            assert(a@ == pts(row_starts@)[ai as int]);
            lemma_row_fits(pt@, u_hat@, v_hat@, ai as int);
        }
        let mut row = line(a, a.offset(&v_hat));
        let ghost csnap = cells@;
        let ghost rsnap = row@;
        cells.append(&mut row);
        proof {
            lemma_pts_concat(csnap, rsnap);
            lemma_flatten_take_step(rows, ai as int);
            assert(pts(rsnap) == rows[ai as int]);
        }
        ai = ai + 1;
    }
    proof {
        assert(rows.take(rows.len() as int) =~= rows);
    }
    cells
}

/// The four boundary edges of the parallelogram spanned by `u_hat` and
/// `v_hat`, concatenated in construction order.
pub fn discrete_frame(pt: Point3, u_hat: Vector3, v_hat: Vector3) -> (r: Vec<Point3>)
    requires
        plane_fits(pt@, u_hat@, v_hat@),
    ensures
        pts(r@) == frame_spec(pt@, u_hat@, v_hat@),
{
    let corner_u = pt.offset(&u_hat);
    let corner_v = pt.offset(&v_hat);
    let corner_uv = corner_u.offset(&v_hat);
    let mut cells = line(pt, corner_u);
    let mut edge2 = line(pt, corner_v);
    let mut edge3 = line(corner_u, corner_uv);
    let mut edge4 = line(corner_v, corner_uv);
    let ghost s1 = cells@;
    let ghost s2 = edge2@;
    let ghost s3 = edge3@;
    let ghost s4 = edge4@;
    cells.append(&mut edge2);
    proof {
        lemma_pts_concat(s1, s2);
    }
    cells.append(&mut edge3);
    proof {
        lemma_pts_concat(s1 + s2, s3);
    }
    cells.append(&mut edge4);
    proof {
        lemma_pts_concat(s1 + s2 + s3, s4);
    }
    cells
}

/// A frame always contains the four corners of its parallelogram.
pub proof fn lemma_frame_corners(pt: SpecPoint, u: SpecVector, v: SpecVector)
    ensures
        frame_spec(pt, u, v).contains(pt),
        frame_spec(pt, u, v).contains(pt.add_vec(u)),
        frame_spec(pt, u, v).contains(pt.add_vec(v)),
        frame_spec(pt, u, v).contains(pt.add_vec(u).add_vec(v)),
{
    let e1 = line_spec(pt, pt.add_vec(u));
    let e2 = line_spec(pt, pt.add_vec(v));
    let e3 = line_spec(pt.add_vec(u), pt.add_vec(u).add_vec(v));
    let e4 = line_spec(pt.add_vec(v), pt.add_vec(u).add_vec(v));
    let f = frame_spec(pt, u, v);
    lemma_line_spec_endpoints(pt, pt.add_vec(u));
    lemma_line_spec_endpoints(pt, pt.add_vec(v));
    lemma_line_spec_endpoints(pt.add_vec(u), pt.add_vec(u).add_vec(v));
    lemma_line_spec_endpoints(pt.add_vec(v), pt.add_vec(u).add_vec(v));
    assert(f[0] == pt);
    assert(f[e1.len() - 1] == pt.add_vec(u));
    assert(f[e1.len() + e2.len() - 1] == pt.add_vec(v));
    assert(f[e1.len() + e2.len() + e3.len() - 1] == pt.add_vec(u).add_vec(v));
}

/// The solid parallelepiped anchored at `pt` and spanned by the three
/// vectors: for every cell `a` of the line along `u_hat`, the whole
/// parallelogram sheet from `a` spanned by `v_hat` and `w_hat`.
pub fn discrete_cuboid(pt: Point3, u_hat: Vector3, v_hat: Vector3, w_hat: Vector3) -> (r: Vec<
    Point3,
>)
    requires
        cuboid_fits(pt@, u_hat@, v_hat@, w_hat@),
    ensures
        pts(r@) == cuboid_spec(pt@, u_hat@, v_hat@, w_hat@),
{
    let slab_starts = line(pt, pt.offset(&u_hat));
    let ghost slabs = cuboid_slabs(pt@, u_hat@, v_hat@, w_hat@);
    let mut cells: Vec<Point3> = Vec::new();
    proof {
        assert(slabs.take(0).flatten() =~= Seq::<SpecPoint>::empty());
        assert(pts(cells@) =~= Seq::<SpecPoint>::empty());
    }
    let mut ai: usize = 0;
    while ai < slab_starts.len()
        invariant
            cuboid_fits(pt@, u_hat@, v_hat@, w_hat@),
            pts(slab_starts@) == line_path(pt@, u_hat@),
            slabs == cuboid_slabs(pt@, u_hat@, v_hat@, w_hat@),
            slabs.len() == slab_starts@.len(),
            0 <= ai <= slab_starts.len(),
            pts(cells@) == slabs.take(ai as int).flatten(),
        decreases slab_starts@.len() - ai,
    {
        let a = slab_starts[ai];
        proof {
            assert(a@ == pts(slab_starts@)[ai as int]);
            lemma_slab_fits(pt@, u_hat@, v_hat@, w_hat@, ai as int);
        }
        let mut slab = discrete_plane(a, v_hat, w_hat);
        let ghost csnap = cells@;
        let ghost ssnap = slab@;
        cells.append(&mut slab);
        proof {
            lemma_pts_concat(csnap, ssnap);
            lemma_flatten_take_step(slabs, ai as int);
            assert(pts(ssnap) == slabs[ai as int]);
        }
        ai = ai + 1;
    }
    proof {
        assert(slabs.take(slabs.len() as int) =~= slabs);
    }
    cells
}

/// Every cell of the line along `u` anchors a sheet spanned by `v` and
/// `w` whose corners all fit, because they lie between corners of the
/// cuboid.
proof fn lemma_slab_fits(pt: SpecPoint, u: SpecVector, v: SpecVector, w: SpecVector, i: int)
    requires
        cuboid_fits(pt, u, v, w),
        0 <= i < line_path(pt, u).len(),
    ensures
        plane_fits(line_path(pt, u)[i], v, w),
{
    lemma_line_spec_in_bbox(pt, pt.add_vec(u), i);
}

/// Squared Euclidean distance between two grid points.
pub open spec fn dist2(p: SpecPoint, c: SpecPoint) -> int {
    p.sub_pt(c).dot(p.sub_pt(c))
}

/// One column of `n` cells along the z axis.
pub open spec fn box_col(x: int, y: int, z0: int, n: int) -> Seq<SpecPoint> {
    Seq::new(n as nat, |k: int| SpecPoint { x: x, y: y, z: z0 + k })
}

/// One slab of `n` columns along the y axis.
pub open spec fn box_slab(x: int, y0: int, z0: int, n: int) -> Seq<SpecPoint> {
    Seq::new(n as nat, |j: int| box_col(x, y0 + j, z0, n)).flatten()
}

/// A cubic block of `n * n * n` cells, x-major and z-minor.
pub open spec fn grid_cube(x0: int, y0: int, z0: int, n: int) -> Seq<SpecPoint> {
    Seq::new(n as nat, |i: int| box_slab(x0 + i, y0, z0, n)).flatten()
}

/// Whether `p` is within Euclidean distance `radius` of `c`, stated by
/// comparing squared distances, which is exact.
pub open spec fn in_ball(c: SpecPoint, radius: int, p: SpecPoint) -> bool {
    dist2(p, c) <= radius * radius
}

/// Whether the Euclidean distance from `p` to `c` differs from `radius`
/// by at most one half: `(2r - 1)^2 <= 4 d^2 <= (2r + 1)^2`, again exact
/// in integers.
pub open spec fn on_shell(c: SpecPoint, radius: int, p: SpecPoint) -> bool {
    (2 * radius - 1) * (2 * radius - 1) <= 4 * dist2(p, c) <= (2 * radius + 1) * (2 * radius + 1)
}

/// The bounding box that the sphere and shell builders enumerate:
/// `[c - radius, c + radius)` on each axis.
pub open spec fn sphere_box(c: SpecPoint, radius: int) -> Seq<SpecPoint> {
    grid_cube(c.x - radius, c.y - radius, c.z - radius, 2 * radius)
}

/// The cells of `s` within distance `radius` of `c`, in order.
pub open spec fn ball_filter(c: SpecPoint, radius: int, s: Seq<SpecPoint>) -> Seq<SpecPoint> {
    s.filter(|q: SpecPoint| in_ball(c, radius, q))
}

/// The cells of `s` at distance about `radius` from `c`, in order.
pub open spec fn shell_filter(c: SpecPoint, radius: int, s: Seq<SpecPoint>) -> Seq<SpecPoint> {
    s.filter(|q: SpecPoint| on_shell(c, radius, q))
}

/// The discrete solid sphere: the cells of the bounding box whose
/// distance to the center is at most the radius.
pub open spec fn sphere_spec(c: SpecPoint, radius: int) -> Seq<SpecPoint> {
    if radius <= 0 {
        Seq::<SpecPoint>::empty()
    } else {
        ball_filter(c, radius, sphere_box(c, radius))
    }
}

/// The discrete spherical surface of thickness about one cell.
pub open spec fn shell_spec(c: SpecPoint, radius: int) -> Seq<SpecPoint> {
    if radius <= 0 {
        Seq::<SpecPoint>::empty()
    } else {
        shell_filter(c, radius, sphere_box(c, radius))
    }
}

/// Every cell of the whole grid, x-major and z-minor.
pub open spec fn all_cells_spec() -> Seq<SpecPoint> {
    grid_cube(0, 0, 0, CUBE_WIDTH as int)
}

/// Machine-limit precondition of the sphere and shell builders: both
/// ends of the bounding box fit the grid point representation.
pub open spec fn ball_fits(c: SpecPoint, radius: int) -> bool {
    &&& in_i32(c.x - radius) && in_i32(c.x + radius)
    &&& in_i32(c.y - radius) && in_i32(c.y + radius)
    &&& in_i32(c.z - radius) && in_i32(c.z + radius)
}

/// Bound on the square of a coordinate difference.
proof fn lemma_sq_bound(v: int)
    requires
        -0x1_0000_0000 <= v <= 0x1_0000_0000,
    ensures
        0 <= v * v <= 0x1_0000_0000_0000_0000,
{
    assert(0 <= v * v <= 0x1_0000_0000_0000_0000) by (nonlinear_arith)
        requires
            -0x1_0000_0000 <= v <= 0x1_0000_0000,
    ;
}

/// Filtering one more cell keeps it exactly when it is in the ball.
proof fn lemma_ball_filter_push(c: SpecPoint, radius: int, s: Seq<SpecPoint>, x: SpecPoint)
    ensures
        ball_filter(c, radius, s.push(x)) == (if in_ball(c, radius, x) {
            ball_filter(c, radius, s).push(x)
        } else {
            ball_filter(c, radius, s)
        }),
{
    reveal(Seq::filter);
    assert(s.push(x).drop_last() =~= s);
    assert(s.push(x).last() == x);
}

/// Filtering one more cell keeps it exactly when it is on the shell.
proof fn lemma_shell_filter_push(c: SpecPoint, radius: int, s: Seq<SpecPoint>, x: SpecPoint)
    ensures
        shell_filter(c, radius, s.push(x)) == (if on_shell(c, radius, x) {
            shell_filter(c, radius, s).push(x)
        } else {
            shell_filter(c, radius, s)
        }),
{
    reveal(Seq::filter);
    assert(s.push(x).drop_last() =~= s);
    assert(s.push(x).last() == x);
}

/// The number of cells on any line with extent `v`: the largest
/// absolute component plus one, wherever the line starts.
pub open spec fn span(v: SpecVector) -> int {
    max3(abs_val(v.x), abs_val(v.y), abs_val(v.z)) + 1
}

/// Every line with extent `v` has `span(v)` cells.
pub proof fn lemma_line_path_len(pt: SpecPoint, v: SpecVector)
    ensures
        line_spec(pt, pt.add_vec(v)).len() == span(v),
{
    lemma_line_spec_endpoints(pt, pt.add_vec(v));
}

/// Flattening rows of one common length multiplies the counts.
proof fn lemma_flatten_uniform_len<A>(rows: Seq<Seq<A>>, w: int)
    requires
        forall|i: int| 0 <= i < rows.len() ==> #[trigger] rows[i].len() == w,
    ensures
        rows.flatten().len() == rows.len() * w,
    decreases rows.len(),
{
    if rows.len() == 0 {
        assert(rows.flatten() =~= Seq::<A>::empty());
        assert(0 * w == 0) by (nonlinear_arith);
    } else {
        let pre = rows.drop_last();
        lemma_flatten_uniform_len(pre, w);
        assert(pre.push(rows.last()) =~= rows);
        pre.lemma_flatten_push(rows.last());
        assert(rows.len() * w == pre.len() * w + w) by (nonlinear_arith)
            requires
                rows.len() == pre.len() + 1,
        ;
    }
}

/// A parallelogram sheet has one cell per pair of cells on its two
/// edges: its count is the product of the edge lengths.
pub proof fn lemma_plane_spec_len(pt: SpecPoint, u: SpecVector, v: SpecVector)
    ensures
        plane_spec(pt, u, v).len() == span(u) * span(v),
{
    let rows = plane_rows(pt, u, v);
    lemma_line_path_len(pt, u);
    assert forall|i: int| 0 <= i < rows.len() implies #[trigger] rows[i].len() == span(v) by {
        lemma_line_path_len(line_path(pt, u)[i], v);
    }
    lemma_flatten_uniform_len(rows, span(v));
}

/// A frame has the cells of its four edges, two of each length.
pub proof fn lemma_frame_spec_len(pt: SpecPoint, u: SpecVector, v: SpecVector)
    ensures
        frame_spec(pt, u, v).len() == 2 * span(u) + 2 * span(v),
{
    lemma_line_path_len(pt, u);
    lemma_line_path_len(pt, v);
    lemma_line_path_len(pt.add_vec(u), v);
    lemma_line_path_len(pt.add_vec(v), u);
    assert(pt.add_vec(u).add_vec(v) =~= pt.add_vec(v).add_vec(u));
}

/// A solid parallelepiped has the product of its three edge lengths.
pub proof fn lemma_cuboid_spec_len(pt: SpecPoint, u: SpecVector, v: SpecVector, w: SpecVector)
    ensures
        cuboid_spec(pt, u, v, w).len() == span(u) * (span(v) * span(w)),
{
    let slabs = cuboid_slabs(pt, u, v, w);
    lemma_line_path_len(pt, u);
    assert forall|i: int| 0 <= i < slabs.len() implies #[trigger] slabs[i].len() == span(v) * span(
        w,
    ) by {
        lemma_plane_spec_len(line_path(pt, u)[i], v, w);
    }
    lemma_flatten_uniform_len(slabs, span(v) * span(w));
}

/// A pushed element joins the members, and nothing else does.
proof fn lemma_push_contains<A>(s: Seq<A>, x: A, y: A)
    ensures
        s.push(x).contains(y) <==> (s.contains(y) || x == y),
{
    if s.push(x).contains(y) {
        let i = choose|i: int| 0 <= i < s.push(x).len() && s.push(x)[i] == y;
        if i < s.len() {
            assert(s[i] == y);
        }
    }
    if s.contains(y) {
        let i = choose|i: int| 0 <= i < s.len() && s[i] == y;
        assert(s.push(x)[i] == y);
    }
    if x == y {
        assert(s.push(x)[s.len() as int] == y);
    }
}

/// A column holds exactly the cells with its x and y and a z in range.
proof fn lemma_box_col_membership(x: int, y: int, z0: int, n: int, p: SpecPoint)
    requires
        0 <= n,
    ensures
        box_col(x, y, z0, n).contains(p) <==> (p.x == x && p.y == y && z0 <= p.z < z0 + n),
{
    let col = box_col(x, y, z0, n);
    if p.x == x && p.y == y && z0 <= p.z < z0 + n {
        assert(col[p.z - z0] =~= p);
        assert(col.contains(p));
    }
    if col.contains(p) {
        let i = choose|i: int| 0 <= i < col.len() && col[i] == p;
        assert(p =~= SpecPoint { x: x, y: y, z: z0 + i });
    }
}

/// The first `m` columns of a slab hold exactly the cells with its x,
/// a y among those columns and a z in range.
proof fn lemma_slab_prefix_membership(x: int, y0: int, z0: int, n: int, m: int, p: SpecPoint)
    requires
        0 <= n,
        0 <= m,
    ensures
        Seq::new(m as nat, |j: int| box_col(x, y0 + j, z0, n)).flatten().contains(p) <==> (p.x == x
            && y0 <= p.y < y0 + m && z0 <= p.z < z0 + n),
    decreases m,
{
    let cols = Seq::new(m as nat, |j: int| box_col(x, y0 + j, z0, n));
    if m == 0 {
        assert(cols.flatten() =~= Seq::<SpecPoint>::empty());
        assert(!cols.flatten().contains(p));
    } else {
        let smaller = Seq::new((m - 1) as nat, |j: int| box_col(x, y0 + j, z0, n));
        let lastcol = box_col(x, y0 + (m - 1), z0, n);
        assert(smaller.push(lastcol) =~= cols);
        smaller.lemma_flatten_push(lastcol);
        lemma_slab_prefix_membership(x, y0, z0, n, m - 1, p);
        lemma_box_col_membership(x, y0 + (m - 1), z0, n, p);
        lemma_concat_contains(smaller.flatten(), lastcol, p);
    }
}

/// Membership in a concatenation is membership in either part.
proof fn lemma_concat_contains<A>(a: Seq<A>, b: Seq<A>, y: A)
    ensures
        (a + b).contains(y) <==> (a.contains(y) || b.contains(y)),
{
    if (a + b).contains(y) {
        let i = choose|i: int| 0 <= i < (a + b).len() && (a + b)[i] == y;
        if i < a.len() {
            assert(a[i] == y);
        } else {
            assert(b[i - a.len()] == y);
        }
    }
    if a.contains(y) {
        let i = choose|i: int| 0 <= i < a.len() && a[i] == y;
        assert((a + b)[i] == y);
    }
    if b.contains(y) {
        let i = choose|i: int| 0 <= i < b.len() && b[i] == y;
        assert((a + b)[a.len() + i] == y);
    }
}

/// The first `m` slabs of a cubic block hold exactly the cells with an
/// x among those slabs and y and z in range.
proof fn lemma_cube_prefix_membership(x0: int, y0: int, z0: int, n: int, m: int, p: SpecPoint)
    requires
        0 <= n,
        0 <= m,
    ensures
        Seq::new(m as nat, |i: int| box_slab(x0 + i, y0, z0, n)).flatten().contains(p) <==> (x0
            <= p.x < x0 + m && y0 <= p.y < y0 + n && z0 <= p.z < z0 + n),
    decreases m,
{
    let slabs = Seq::new(m as nat, |i: int| box_slab(x0 + i, y0, z0, n));
    if m == 0 {
        assert(slabs.flatten() =~= Seq::<SpecPoint>::empty());
        assert(!slabs.flatten().contains(p));
    } else {
        let smaller = Seq::new((m - 1) as nat, |i: int| box_slab(x0 + i, y0, z0, n));
        let lastslab = box_slab(x0 + (m - 1), y0, z0, n);
        assert(smaller.push(lastslab) =~= slabs);
        smaller.lemma_flatten_push(lastslab);
        lemma_cube_prefix_membership(x0, y0, z0, n, m - 1, p);
        lemma_slab_prefix_membership(x0 + (m - 1), y0, z0, n, n, p);
        lemma_concat_contains(smaller.flatten(), lastslab, p);
    }
}

/// A cubic block holds exactly the cells within its three coordinate
/// ranges.
pub proof fn lemma_grid_cube_membership(x0: int, y0: int, z0: int, n: int, p: SpecPoint)
    requires
        0 <= n,
    ensures
        grid_cube(x0, y0, z0, n).contains(p) <==> (x0 <= p.x < x0 + n && y0 <= p.y < y0 + n && z0
            <= p.z < z0 + n),
{
    lemma_cube_prefix_membership(x0, y0, z0, n, n, p);
}

/// The full-grid fill covers exactly the cells of the grid.
pub proof fn lemma_all_cells_membership(p: SpecPoint)
    ensures
        all_cells_spec().contains(p) <==> crate::model::spec_in_bounds(p),
{
    lemma_grid_cube_membership(0, 0, 0, CUBE_WIDTH as int, p);
}

/// Filtering by the ball test keeps exactly the members that pass it.
proof fn lemma_ball_filter_membership(c: SpecPoint, radius: int, s: Seq<SpecPoint>, p: SpecPoint)
    ensures
        ball_filter(c, radius, s).contains(p) <==> (s.contains(p) && in_ball(c, radius, p)),
    decreases s.len(),
{
    reveal(Seq::filter);
    if s.len() == 0 {
        assert(!s.contains(p));
    } else {
        let pre = s.drop_last();
        let lst = s.last();
        lemma_ball_filter_membership(c, radius, pre, s.last());
        lemma_ball_filter_membership(c, radius, pre, p);
        if in_ball(c, radius, lst) {
            lemma_push_contains(ball_filter(c, radius, pre), lst, p);
        }
        lemma_push_contains(pre, lst, p);
        assert(pre.push(lst) =~= s);
    }
}

/// Filtering by the shell test keeps exactly the members that pass it.
proof fn lemma_shell_filter_membership(c: SpecPoint, radius: int, s: Seq<SpecPoint>, p: SpecPoint)
    ensures
        shell_filter(c, radius, s).contains(p) <==> (s.contains(p) && on_shell(c, radius, p)),
    decreases s.len(),
{
    reveal(Seq::filter);
    if s.len() == 0 {
        assert(!s.contains(p));
    } else {
        let pre = s.drop_last();
        let lst = s.last();
        lemma_shell_filter_membership(c, radius, pre, s.last());
        lemma_shell_filter_membership(c, radius, pre, p);
        if on_shell(c, radius, lst) {
            lemma_push_contains(shell_filter(c, radius, pre), lst, p);
        }
        lemma_push_contains(pre, lst, p);
        assert(pre.push(lst) =~= s);
    }
}

/// A cell is on the discrete sphere exactly when it lies in the
/// bounding box and within Euclidean distance `radius` of the center:
/// membership is decided by the direct distance computation.
pub proof fn lemma_sphere_spec_membership(c: SpecPoint, radius: int, p: SpecPoint)
    ensures
        sphere_spec(c, radius).contains(p) <==> (radius > 0 && c.x - radius <= p.x < c.x + radius
            && c.y - radius <= p.y < c.y + radius && c.z - radius <= p.z < c.z + radius && dist2(
            p,
            c,
        ) <= radius * radius),
{
    if radius <= 0 {
        assert(!sphere_spec(c, radius).contains(p));
    } else {
        lemma_ball_filter_membership(c, radius, sphere_box(c, radius), p);
        lemma_grid_cube_membership(c.x - radius, c.y - radius, c.z - radius, 2 * radius, p);
    }
}

/// A cell is on the discrete shell exactly when it lies in the
/// bounding box and its distance to the center differs from the radius
/// by at most one half.
pub proof fn lemma_shell_spec_membership(c: SpecPoint, radius: int, p: SpecPoint)
    ensures
        shell_spec(c, radius).contains(p) <==> (radius > 0 && c.x - radius <= p.x < c.x + radius
            && c.y - radius <= p.y < c.y + radius && c.z - radius <= p.z < c.z + radius
            && on_shell(c, radius, p)),
{
    if radius <= 0 {
        assert(!shell_spec(c, radius).contains(p));
    } else {
        lemma_shell_filter_membership(c, radius, sphere_box(c, radius), p);
        lemma_grid_cube_membership(c.x - radius, c.y - radius, c.z - radius, 2 * radius, p);
    }
}

/// Every cell of the cubic block with corner `(x0, y0, z0)` and side
/// `n`, x-major and z-minor.
fn box_cells(x0: i32, y0: i32, z0: i32, n: i64) -> (r: Vec<Point3>)
    requires
        0 <= n <= 0x1_0000_0000i64,
        n > 0 ==> in_i32(x0 + n - 1) && in_i32(y0 + n - 1) && in_i32(z0 + n - 1),
    ensures
        pts(r@) == grid_cube(x0 as int, y0 as int, z0 as int, n as int),
{
    let ghost slabs = Seq::new(
        n as nat,
        |i: int| box_slab(x0 as int + i, y0 as int, z0 as int, n as int),
    );
    let mut cells: Vec<Point3> = Vec::new();
    proof {
        assert(slabs.take(0).flatten() =~= Seq::<SpecPoint>::empty());
        assert(pts(cells@) =~= Seq::<SpecPoint>::empty());
        if n == 0 {
            assert(slabs.take(0) =~= slabs);
        }
    }
    let mut di: i64 = 0;
    while di < n
        invariant
            0 <= di <= n,
            0 <= n <= 0x1_0000_0000i64,
            n > 0 ==> in_i32(x0 + n - 1) && in_i32(y0 + n - 1) && in_i32(z0 + n - 1),
            slabs == Seq::new(
                n as nat,
                |i: int| box_slab(x0 as int + i, y0 as int, z0 as int, n as int),
            ),
            pts(cells@) == slabs.take(di as int).flatten(),
        decreases n - di,
    {
        let ghost cols = Seq::new(
            n as nat,
            |j: int| box_col(x0 as int + di, y0 as int + j, z0 as int, n as int),
        );
        let mut dj: i64 = 0;
        while dj < n
            invariant
                0 <= di < n,
                0 <= dj <= n,
                0 <= n <= 0x1_0000_0000i64,
                in_i32(x0 + n - 1) && in_i32(y0 + n - 1) && in_i32(z0 + n - 1),
                slabs == Seq::new(
                    n as nat,
                    |i: int| box_slab(x0 as int + i, y0 as int, z0 as int, n as int),
                ),
                cols == Seq::new(
                    n as nat,
                    |j: int| box_col(x0 as int + di, y0 as int + j, z0 as int, n as int),
                ),
                pts(cells@) == slabs.take(di as int).flatten() + cols.take(dj as int).flatten(),
            decreases n - dj,
        {
            let ghost col = box_col(x0 as int + di, y0 as int + dj, z0 as int, n as int);
            let mut dk: i64 = 0;
            while dk < n
                invariant
                    0 <= di < n,
                    0 <= dj < n,
                    0 <= dk <= n,
                    0 <= n <= 0x1_0000_0000i64,
                    in_i32(x0 + n - 1) && in_i32(y0 + n - 1) && in_i32(z0 + n - 1),
                    col == box_col(x0 as int + di, y0 as int + dj, z0 as int, n as int),
                    pts(cells@) == slabs.take(di as int).flatten() + cols.take(dj as int).flatten()
                        + col.take(dk as int),
                decreases n - dk,
            {
                let cell = Point3 {
                    x: (x0 as i64 + di) as i32,
                    y: (y0 as i64 + dj) as i32,
                    z: (z0 as i64 + dk) as i32,
                };
                let ghost csnap = cells@;
                cells.push(cell);
                proof {
                    lemma_pts_push(csnap, cell);
                    assert(col.take(dk as int).push(col[dk as int]) =~= col.take(dk as int + 1));
                    assert(cell@ == col[dk as int]);
                    assert(pts(cells@) =~= slabs.take(di as int).flatten() + cols.take(
                        dj as int,
                    ).flatten() + col.take(dk as int + 1));
                }
                dk = dk + 1;
            }
            proof {
                assert(col.take(n as int) =~= col);
                assert(cols[dj as int] == col);
                lemma_flatten_take_step(cols, dj as int);
                assert(pts(cells@) =~= slabs.take(di as int).flatten() + cols.take(
                    dj as int + 1,
                ).flatten());
            }
            dj = dj + 1;
        }
        proof {
            assert(cols.take(n as int) =~= cols);
            assert(slabs[di as int] == cols.flatten());
            lemma_flatten_take_step(slabs, di as int);
            assert(pts(cells@) =~= slabs.take(di as int + 1).flatten());
        }
        di = di + 1;
    }
    proof {
        assert(slabs.take(n as int) =~= slabs);
    }
    cells
}

/// The cells of the bounding box `[center - p, center + p)` whose
/// Euclidean distance to `center` is at most `p`, by exact integer
/// comparison of squared distances; empty when `p <= 0`.
pub fn discrete_sphere(center: Point3, p: i32) -> (r: Vec<Point3>)
    requires
        ball_fits(center@, p as int),
    ensures
        pts(r@) == sphere_spec(center@, p as int),
{
    let mut cells: Vec<Point3> = Vec::new();
    if p <= 0 {
        proof {
            assert(pts(cells@) =~= sphere_spec(center@, p as int));
        }
        return cells;
    }
    let bx = box_cells(center.x - p, center.y - p, center.z - p, 2 * (p as i64));
    let ghost boxs = sphere_box(center@, p as int);
    let mut idx: usize = 0;
    while idx < bx.len()
        invariant
            1 <= p,
            pts(bx@) == boxs,
            boxs == sphere_box(center@, p as int),
            0 <= idx <= bx@.len(),
            pts(cells@) == ball_filter(center@, p as int, boxs.take(idx as int)),
        decreases bx@.len() - idx,
    {
        let cell = bx[idx];
        let ddx: i128 = cell.x as i128 - center.x as i128;
        let ddy: i128 = cell.y as i128 - center.y as i128;
        let ddz: i128 = cell.z as i128 - center.z as i128;
        proof {
            lemma_sq_bound(ddx as int);
            lemma_sq_bound(ddy as int);
            lemma_sq_bound(ddz as int);
        }
        let d2: i128 = ddx * ddx + ddy * ddy + ddz * ddz;
        proof {
            assert(cell@ == pts(bx@)[idx as int]);
            assert(boxs.take(idx as int).push(boxs[idx as int]) =~= boxs.take(idx as int + 1));
            lemma_ball_filter_push(center@, p as int, boxs.take(idx as int), cell@);
            assert(d2 == dist2(cell@, center@));
        }
        proof {
            lemma_sq_bound(p as int);
        }
        if d2 <= (p as i128) * (p as i128) {
            let ghost csnap = cells@;
            cells.push(cell);
            proof {
                lemma_pts_push(csnap, cell);
            }
        }
        idx = idx + 1;
    }
    proof {
        assert(boxs.take(boxs.len() as int) =~= boxs);
    }
    cells
}

/// The cells of the bounding box `[center - p, center + p)` whose
/// Euclidean distance to `center` differs from `p` by at most one half,
/// by exact integer comparison; empty when `p <= 0`.
pub fn discrete_shell(center: Point3, p: i32) -> (r: Vec<Point3>)
    requires
        ball_fits(center@, p as int),
    ensures
        pts(r@) == shell_spec(center@, p as int),
{
    let mut cells: Vec<Point3> = Vec::new();
    if p <= 0 {
        proof {
            assert(pts(cells@) =~= shell_spec(center@, p as int));
        }
        return cells;
    }
    let bx = box_cells(center.x - p, center.y - p, center.z - p, 2 * (p as i64));
    let ghost boxs = sphere_box(center@, p as int);
    let mut idx: usize = 0;
    while idx < bx.len()
        invariant
            1 <= p,
            pts(bx@) == boxs,
            boxs == sphere_box(center@, p as int),
            0 <= idx <= bx@.len(),
            pts(cells@) == shell_filter(center@, p as int, boxs.take(idx as int)),
        decreases bx@.len() - idx,
    {
        let cell = bx[idx];
        let ddx: i128 = cell.x as i128 - center.x as i128;
        let ddy: i128 = cell.y as i128 - center.y as i128;
        let ddz: i128 = cell.z as i128 - center.z as i128;
        proof {
            lemma_sq_bound(ddx as int);
            lemma_sq_bound(ddy as int);
            lemma_sq_bound(ddz as int);
        }
        let d2: i128 = ddx * ddx + ddy * ddy + ddz * ddz;
        let lo: i128 = 2 * (p as i128) - 1;
        let hi: i128 = 2 * (p as i128) + 1;
        proof {
            lemma_sq_bound(lo as int);
            lemma_sq_bound(hi as int);
        }
        proof {
            assert(cell@ == pts(bx@)[idx as int]);
            assert(boxs.take(idx as int).push(boxs[idx as int]) =~= boxs.take(idx as int + 1));
            lemma_shell_filter_push(center@, p as int, boxs.take(idx as int), cell@);
            assert(d2 == dist2(cell@, center@));
        }
        if lo * lo <= 4 * d2 && 4 * d2 <= hi * hi {
            let ghost csnap = cells@;
            cells.push(cell);
            proof {
                lemma_pts_push(csnap, cell);
            }
        }
        idx = idx + 1;
    }
    proof {
        assert(boxs.take(boxs.len() as int) =~= boxs);
    }
    cells
}

/// Every cell of the grid, x-major and z-minor, for full-grid fills.
pub fn all_cells() -> (r: Vec<Point3>)
    ensures
        pts(r@) == all_cells_spec(),
{
    box_cells(0, 0, 0, CUBE_WIDTH as i64)
}

} // verus!
