//! The data model: grid points, displacement vectors and fixed-point
//! colors, together with their unbounded mathematical counterparts that
//! the contracts of the whole crate are stated over.

use vstd::prelude::*;

verus! {

/// Side length of the cubic grid, in cells.
pub const CUBE_WIDTH: i32 = 8;

/// Number of cells in the whole grid.
pub const GRID_CELLS: usize = 512;

/// Fixed-point scale of a color channel: `COLOR_SCALE` stands for full
/// intensity (1.0), `0` for none.
pub const COLOR_SCALE: u32 = 1000;

/// Mathematical model of a grid point: unbounded integer coordinates.
#[verifier::ext_equal]
pub struct SpecPoint {
    pub x: int,
    pub y: int,
    pub z: int,
}

/// Mathematical model of a displacement vector.
#[verifier::ext_equal]
pub struct SpecVector {
    pub x: int,
    pub y: int,
    pub z: int,
}

/// Mathematical model of a color: four unbounded fixed-point channels.
#[verifier::ext_equal]
pub struct SpecColor {
    pub r: int,
    pub g: int,
    pub b: int,
    pub a: int,
}

/// A grid cell or rasterization endpoint. Coordinates are not restricted
/// to the grid: validity is checked at the compositing boundary, not at
/// construction.
#[derive(Clone, Copy, PartialEq, Eq, Structural, Debug)]
pub struct Point3 {
    pub x: i32,
    pub y: i32,
    pub z: i32,
}

/// An integer displacement, used to derive a second endpoint of a line or
/// to give a gradient its axis. Never itself validated against the grid.
#[derive(Clone, Copy, PartialEq, Eq, Structural, Debug)]
pub struct Vector3 {
    pub x: i32,
    pub y: i32,
    pub z: i32,
}

/// A color with four fixed-point channels (red, green, blue, alpha), each
/// nominally in `[0, COLOR_SCALE]`.
#[derive(Clone, Copy, PartialEq, Eq, Structural, Debug)]
pub struct Color {
    pub r: u32,
    pub g: u32,
    pub b: u32,
    pub a: u32,
}

impl View for Point3 {
    type V = SpecPoint;

    open spec fn view(&self) -> SpecPoint {
        SpecPoint { x: self.x as int, y: self.y as int, z: self.z as int }
    }
}

impl View for Vector3 {
    type V = SpecVector;

    open spec fn view(&self) -> SpecVector {
        SpecVector { x: self.x as int, y: self.y as int, z: self.z as int }
    }
}

impl View for Color {
    type V = SpecColor;

    open spec fn view(&self) -> SpecColor {
        SpecColor {
            r: self.r as int,
            g: self.g as int,
            b: self.b as int,
            a: self.a as int,
        }
    }
}

impl SpecPoint {
    /// The point reached from `self` by the displacement `v`.
    pub open spec fn add_vec(self, v: SpecVector) -> SpecPoint {
        SpecPoint { x: self.x + v.x, y: self.y + v.y, z: self.z + v.z }
    }

    /// The displacement leading from `other` to `self`.
    pub open spec fn sub_pt(self, other: SpecPoint) -> SpecVector {
        SpecVector { x: self.x - other.x, y: self.y - other.y, z: self.z - other.z }
    }
}

impl SpecVector {
    /// Euclidean inner product.
    pub open spec fn dot(self, o: SpecVector) -> int {
        self.x * o.x + self.y * o.y + self.z * o.z
    }

    pub open spec fn is_zero(self) -> bool {
        self.x == 0 && self.y == 0 && self.z == 0
    }
}

/// Whether an unbounded coordinate fits the machine representation of a
/// grid point.
pub open spec fn in_i32(v: int) -> bool {
    i32::MIN <= v <= i32::MAX
}

/// Whether every coordinate of `p` fits the machine representation.
pub open spec fn point_in_i32(p: SpecPoint) -> bool {
    in_i32(p.x) && in_i32(p.y) && in_i32(p.z)
}

/// Whether `p` lies inside the grid.
pub open spec fn spec_in_bounds(p: SpecPoint) -> bool {
    &&& 0 <= p.x < CUBE_WIDTH as int
    &&& 0 <= p.y < CUBE_WIDTH as int
    &&& 0 <= p.z < CUBE_WIDTH as int
}

/// The views of a sequence of grid points, element by element.
pub open spec fn pts(s: Seq<Point3>) -> Seq<SpecPoint> {
    s.map_values(|p: Point3| p@)
}

/// Taking views commutes with appending one point.
pub proof fn lemma_pts_push(s: Seq<Point3>, p: Point3)
    ensures
        pts(s.push(p)) == pts(s).push(p@),
{
    assert(pts(s.push(p)) =~= pts(s).push(p@));
}

/// Taking views commutes with concatenation.
pub proof fn lemma_pts_concat(a: Seq<Point3>, b: Seq<Point3>)
    ensures
        pts(a + b) == pts(a) + pts(b),
{
    assert(pts(a + b) =~= pts(a) + pts(b));
}

impl Point3 {
    pub fn new(x: i32, y: i32, z: i32) -> (p: Point3)
        ensures
            p@ == (SpecPoint { x: x as int, y: y as int, z: z as int }),
    {
        Point3 { x, y, z }
    }

    /// The point reached from `self` by the displacement `v`.
    pub fn offset(&self, v: &Vector3) -> (r: Point3)
        requires
            point_in_i32(self@.add_vec(v@)),
        ensures
            r@ == self@.add_vec(v@),
    {
        Point3 { x: self.x + v.x, y: self.y + v.y, z: self.z + v.z }
    }
}

impl Vector3 {
    pub fn new(x: i32, y: i32, z: i32) -> (v: Vector3)
        ensures
            v@ == (SpecVector { x: x as int, y: y as int, z: z as int }),
    {
        Vector3 { x, y, z }
    }

    pub fn is_zero(&self) -> (r: bool)
        ensures
            r == self@.is_zero(),
    {
        self.x == 0 && self.y == 0 && self.z == 0
    }
}

impl Color {
    pub fn new(r: u32, g: u32, b: u32, a: u32) -> (c: Color)
        ensures
            c@ == (SpecColor { r: r as int, g: g as int, b: b as int, a: a as int }),
    {
        Color { r, g, b, a }
    }
}

} // verus!
