//! The grid of colors and its compositor. The grid is a flat owned
//! array of `CUBE_WIDTH^3` colors indexed x-major; it is created once
//! and never resized. Compositing follows the clip/replace policy: a
//! cell outside the grid is silently skipped, and a write replaces the
//! stored color entirely, so later writes win wherever a shape repeats
//! a cell.

use vstd::pervasive::VecAdditionalExecFns;
use vstd::prelude::*;

use crate::model::{
    pts, spec_in_bounds, Color, Point3, SpecColor, SpecPoint, COLOR_SCALE, CUBE_WIDTH, GRID_CELLS,
};
use crate::shader::{spec_shade, Shader, SpecShader};

verus! {

/// Index of a cell in the flat grid array.
pub open spec fn cell_index(p: SpecPoint) -> int {
    (p.x * (CUBE_WIDTH as int) + p.y) * (CUBE_WIDTH as int) + p.z
}

/// The conventional start-up color of the cell with flat index `i`: a
/// deterministic rainbow, each coordinate scaled to its channel, fully
/// opaque.
pub open spec fn rainbow_at(i: int) -> SpecColor {
    SpecColor {
        r: (i / 64) * ((COLOR_SCALE as int) / (CUBE_WIDTH as int)),
        g: ((i / 8) % 8) * ((COLOR_SCALE as int) / (CUBE_WIDTH as int)),
        b: (i % 8) * ((COLOR_SCALE as int) / (CUBE_WIDTH as int)),
        a: COLOR_SCALE as int,
    }
}

/// The grid: one color per cell, exclusively owned, mutated only by the
/// compositor below.
pub struct Grid {
    cells: Vec<Color>,
}

impl View for Grid {
    type V = Seq<SpecColor>;

    closed spec fn view(&self) -> Seq<SpecColor> {
        self.cells@.map_values(|c: Color| c@)
    }
}

impl Grid {
    /// Well-formed: exactly one color per cell of the cube.
    pub open spec fn wf(self) -> bool {
        self@.len() == GRID_CELLS as int
    }

    /// A fresh grid with every cell set to `fill`.
    pub fn new(fill: Color) -> (g: Grid)
        ensures
            g.wf(),
            g@ == Seq::new(GRID_CELLS as nat, |i: int| fill@),
    {
        let mut cells: Vec<Color> = Vec::new();
        let mut i: usize = 0;
        while i < GRID_CELLS
            invariant
                i <= GRID_CELLS,
                cells@.len() == i,
                forall|j: int| 0 <= j < i ==> cells@[j] == fill,
            decreases GRID_CELLS - i,
        {
            cells.push(fill);
            i = i + 1;
        }
        let g = Grid { cells };
        proof {
            assert(g@ =~= Seq::new(GRID_CELLS as nat, |i: int| fill@));
        }
        g
    }

    /// A fresh grid with the conventional deterministic rainbow fill.
    pub fn rainbow() -> (g: Grid)
        ensures
            g.wf(),
            g@ == Seq::new(GRID_CELLS as nat, |i: int| rainbow_at(i)),
    {
        let mut cells: Vec<Color> = Vec::new();
        let mut i: usize = 0;
        while i < GRID_CELLS
            invariant
                i <= GRID_CELLS,
                cells@.len() == i,
                forall|j: int| 0 <= j < i ==> cells@[j]@ == rainbow_at(j),
            decreases GRID_CELLS - i,
        {
            proof {
                assert(i < 512);
                vstd::arithmetic::div_mod::lemma_div_is_ordered(i as int, 511, 64);
                vstd::arithmetic::div_mod::lemma_mod_bound(i as int / 8, 8);
                vstd::arithmetic::div_mod::lemma_mod_bound(i as int, 8);
                assert((511int) / 64 == 7);
                assert(i / 64 < 8 && (i / 8) % 8 < 8 && i % 8 < 8);
            }
            let step: u32 = COLOR_SCALE / (CUBE_WIDTH as u32);
            let xi: u32 = (i / 64) as u32;
            let yi: u32 = ((i / 8) % 8) as u32;
            let zi: u32 = (i % 8) as u32;
            proof {
                assert((CUBE_WIDTH as u32) == 8);
                assert(1000u32 / 8u32 == 125);
                assert(step == 125);
                assert(xi <= 7 && yi <= 7 && zi <= 7);
            }
            let c = Color { r: xi * step, g: yi * step, b: zi * step, a: COLOR_SCALE };
            proof {
                assert(c@ =~= rainbow_at(i as int));
            }
            cells.push(c);
            i = i + 1;
        }
        let g = Grid { cells };
        proof {
            assert(g@ =~= Seq::new(GRID_CELLS as nat, |i: int| rainbow_at(i)));
        }
        g
    }

    /// Whether the grid still has its full complement of cells; true
    /// of every grid this module hands out, and a way for unverified
    /// callers to test `wf` before calling the compositor.
    pub fn is_well_formed(&self) -> (r: bool)
        ensures
            r == self.wf(),
    {
        self.cells.len() == GRID_CELLS
    }

    /// The color currently stored at `(x, y, z)`: the read-accessible
    /// lookup offered to the rendering collaborator.
    pub fn get(&self, x: usize, y: usize, z: usize) -> (c: Color)
        requires
            self.wf(),
            x < CUBE_WIDTH as usize,
            y < CUBE_WIDTH as usize,
            z < CUBE_WIDTH as usize,
        ensures
            c@ == self@[cell_index(
                SpecPoint { x: x as int, y: y as int, z: z as int },
            )],
    {
        let n = CUBE_WIDTH as usize;
        proof {
            assert(n == 8);
            assert(x * n + y <= 63);
            assert((x * n + y) * n + z <= 511);
        }
        self.cells[(x * n + y) * n + z]
    }
}

/// The grid after writing `c` at `p`: unchanged when `p` is outside the
/// grid (clip policy), the stored color replaced when inside (replace
/// policy).
pub open spec fn spec_paint(g: Seq<SpecColor>, p: SpecPoint, c: SpecColor) -> Seq<SpecColor> {
    if spec_in_bounds(p) {
        g.update(cell_index(p), c)
    } else {
        g
    }
}

/// The grid after applying a whole shape cell by cell, earlier cells
/// first, so the last write to a repeated cell wins.
pub open spec fn spec_apply_shape(
    g: Seq<SpecColor>,
    cells: Seq<SpecPoint>,
    s: SpecShader,
) -> Seq<SpecColor>
    decreases cells.len(),
{
    if cells.len() == 0 {
        g
    } else {
        spec_apply_shape(
            spec_paint(g, cells[0], spec_shade(s, cells[0])),
            cells.drop_first(),
            s,
        )
    }
}

/// Write `clr` into the cell at `pt`. A cell outside the grid is a
/// silent no-op; inside, the new color replaces the old one entirely.
pub fn paint(grid: &mut Grid, pt: Point3, clr: Color)
    requires
        old(grid).wf(),
    ensures
        final(grid).wf(),
        final(grid)@ == spec_paint(old(grid)@, pt@, clr@),
{
    if 0 <= pt.x && pt.x < CUBE_WIDTH && 0 <= pt.y && pt.y < CUBE_WIDTH && 0 <= pt.z && pt.z
        < CUBE_WIDTH {
        let n = CUBE_WIDTH as usize;
        let idx = ((pt.x as usize) * n + (pt.y as usize)) * n + (pt.z as usize);
        grid.cells.set(idx, clr);
        proof {
            assert(grid@ =~= spec_paint(old(grid)@, pt@, clr@));
        }
    }
}

/// Apply one resolved command to the grid: for each cell of the shape,
/// in order, evaluate the shader and composite the result. The shader
/// never observes the grid, and a cell that falls outside the grid is
/// skipped without disturbing the rest of the shape.
pub fn apply_shape(grid: &mut Grid, shape: &Vec<Point3>, shader: &Shader)
    requires
        old(grid).wf(),
        shader@.wf(),
    ensures
        final(grid).wf(),
        final(grid)@ == spec_apply_shape(old(grid)@, pts(shape@), shader@),
{
    let ghost target = spec_apply_shape(old(grid)@, pts(shape@), shader@);
    proof {
        assert(pts(shape@).skip(0) =~= pts(shape@));
    }
    let mut i: usize = 0;
    while i < shape.len()
        invariant
            grid.wf(),
            shader@.wf(),
            0 <= i <= shape@.len(),
            spec_apply_shape(grid@, pts(shape@).skip(i as int), shader@) == target,
        decreases shape@.len() - i,
    {
        let cell = shape[i];
        let c = shader.evaluate(cell);
        let ghost before = grid@;
        paint(grid, cell, c);
        proof {
            let rest = pts(shape@).skip(i as int);
            assert(rest[0] == cell@);
            assert(rest.drop_first() =~= pts(shape@).skip(i as int + 1));
            assert(spec_apply_shape(before, rest, shader@) == spec_apply_shape(
                grid@,
                pts(shape@).skip(i as int + 1),
                shader@,
            ));
        }
        i = i + 1;
    }
    proof {
        assert(pts(shape@).skip(shape@.len() as int) =~= Seq::<SpecPoint>::empty());
    }
}

/// The color the shape itself determines for the grid slot `idx`: the
/// shader's color of the last in-bounds cell of the shape that lands
/// on that slot, if any. Under the replace policy this is all that
/// survives of the shape.
pub open spec fn shape_color_at(cells: Seq<SpecPoint>, s: SpecShader, idx: int) -> Option<
    SpecColor,
>
    decreases cells.len(),
{
    if cells.len() == 0 {
        None
    } else {
        let lst = cells.last();
        if spec_in_bounds(lst) && cell_index(lst) == idx {
            Some(spec_shade(s, lst))
        } else {
            shape_color_at(cells.drop_last(), s, idx)
        }
    }
}

/// An in-bounds cell lands inside the flat grid array.
proof fn lemma_cell_index_range(p: SpecPoint)
    requires
        spec_in_bounds(p),
    ensures
        0 <= cell_index(p) < GRID_CELLS as int,
{
}

/// Applying a shape extended by one cell paints that cell last.
proof fn lemma_apply_shape_snoc(
    g: Seq<SpecColor>,
    cells: Seq<SpecPoint>,
    s: SpecShader,
    x: SpecPoint,
)
    ensures
        spec_apply_shape(g, cells.push(x), s) == spec_paint(
            spec_apply_shape(g, cells, s),
            x,
            spec_shade(s, x),
        ),
    decreases cells.len(),
{
    if cells.len() == 0 {
        assert(cells.push(x).drop_first() =~= Seq::<SpecPoint>::empty());
        assert(cells.push(x)[0] == x);
        assert(spec_apply_shape(spec_paint(g, x, spec_shade(s, x)), Seq::<SpecPoint>::empty(), s)
            == spec_paint(g, x, spec_shade(s, x)));
        assert(spec_apply_shape(g, cells, s) == g);
    } else {
        assert(cells.push(x).drop_first() =~= cells.drop_first().push(x));
        assert(cells.push(x)[0] == cells[0]);
        lemma_apply_shape_snoc(
            spec_paint(g, cells[0], spec_shade(s, cells[0])),
            cells.drop_first(),
            s,
            x,
        );
    }
}

/// Compositing never changes the number of cells.
proof fn lemma_apply_shape_len(g: Seq<SpecColor>, cells: Seq<SpecPoint>, s: SpecShader)
    requires
        g.len() == GRID_CELLS as int,
    ensures
        spec_apply_shape(g, cells, s).len() == g.len(),
    decreases cells.len(),
{
    if cells.len() > 0 {
        if spec_in_bounds(cells[0]) {
            lemma_cell_index_range(cells[0]);
        }
        lemma_apply_shape_len(spec_paint(g, cells[0], spec_shade(s, cells[0])), cells.drop_first(), s);
    }
}

/// What one grid slot holds after a whole shape is applied: the
/// shape's own color for that slot where it has one (the last write
/// wins), the previous color everywhere else.
pub proof fn lemma_apply_shape_at(g: Seq<SpecColor>, cells: Seq<SpecPoint>, s: SpecShader, idx: int)
    requires
        g.len() == GRID_CELLS as int,
        0 <= idx < g.len(),
    ensures
        spec_apply_shape(g, cells, s)[idx] == (match shape_color_at(cells, s, idx) {
            Some(c) => c,
            None => g[idx],
        }),
    decreases cells.len(),
{
    if cells.len() > 0 {
        let pre = cells.drop_last();
        let lst = cells.last();
        assert(pre.push(lst) =~= cells);
        lemma_apply_shape_snoc(g, pre, s, lst);
        lemma_apply_shape_at(g, pre, s, idx);
        lemma_apply_shape_len(g, pre, s);
        if spec_in_bounds(lst) {
            lemma_cell_index_range(lst);
        }
    }
}

/// Applying the same shape and shader twice leaves the grid exactly as
/// after the first application: the replace policy is idempotent. The
/// shader is pure, so the second pass rewrites every touched slot with
/// the color it already holds.
pub proof fn lemma_apply_shape_idempotent(g: Seq<SpecColor>, cells: Seq<SpecPoint>, s: SpecShader)
    requires
        g.len() == GRID_CELLS as int,
    ensures
        spec_apply_shape(spec_apply_shape(g, cells, s), cells, s) == spec_apply_shape(g, cells, s),
{
    let once = spec_apply_shape(g, cells, s);
    lemma_apply_shape_len(g, cells, s);
    lemma_apply_shape_len(once, cells, s);
    assert forall|idx: int| 0 <= idx < g.len() implies spec_apply_shape(once, cells, s)[idx]
        == once[idx] by {
        lemma_apply_shape_at(g, cells, s, idx);
        lemma_apply_shape_at(once, cells, s, idx);
    }
    assert(spec_apply_shape(once, cells, s) =~= once);
}

/// Under the clip policy an out-of-bounds cell in a shape is simply
/// skipped: the grid ends exactly as if that cell had not been in the
/// shape, so its neighbors are untouched and every remaining cell of
/// the shape is still applied.
pub proof fn lemma_clip_skips_out_of_bounds(
    g: Seq<SpecColor>,
    cells: Seq<SpecPoint>,
    s: SpecShader,
    i: int,
)
    requires
        0 <= i < cells.len(),
        !spec_in_bounds(cells[i]),
    ensures
        spec_apply_shape(g, cells, s) == spec_apply_shape(g, cells.remove(i), s),
    decreases cells.len(),
{
    if i == 0 {
        assert(spec_paint(g, cells[0], spec_shade(s, cells[0])) == g);
        assert(cells.remove(0) =~= cells.drop_first());
    } else {
        let g1 = spec_paint(g, cells[0], spec_shade(s, cells[0]));
        lemma_clip_skips_out_of_bounds(g1, cells.drop_first(), s, i - 1);
        assert(cells.drop_first().remove(i - 1) =~= cells.remove(i).drop_first());
        assert(cells.remove(i)[0] == cells[0]);
    }
}

} // verus!
