//! Shaders: pure per-cell color functions. A shader is either a constant
//! color or a two-stop linear gradient that projects the cell onto an
//! axis and interpolates between two colors. All arithmetic is exact:
//! the projection parameter is kept as the integer pair `(num, den)`
//! rather than a quotient, and channels interpolate in fixed point, so
//! the gradient is reproducible cell for cell.

use vstd::prelude::*;

use crate::model::{Color, Point3, SpecColor, SpecPoint, SpecVector, Vector3};

verus! {

/// A pure mapping from a grid cell to a color, closed over the
/// parameters of one command.
#[derive(Clone, Copy, PartialEq, Eq, Structural, Debug)]
pub enum Shader {
    /// The same color for every cell.
    Constant(Color),
    /// A two-stop linear gradient: a cell is projected onto `axis`
    /// relative to `anchor`, and the projection parameter interpolates
    /// from `color1` (at the anchor) to `color2` (at `anchor + axis`).
    /// Beyond either stop the nearest stop's color is used.
    LinearGradient { color1: Color, color2: Color, anchor: Point3, axis: Vector3 },
}

/// Mathematical model of a shader.
#[verifier::ext_equal]
pub enum SpecShader {
    Constant(SpecColor),
    LinearGradient { color1: SpecColor, color2: SpecColor, anchor: SpecPoint, axis: SpecVector },
}

impl View for Shader {
    type V = SpecShader;

    open spec fn view(&self) -> SpecShader {
        match self {
            Shader::Constant(c) => SpecShader::Constant(c@),
            Shader::LinearGradient { color1, color2, anchor, axis } => SpecShader::LinearGradient {
                color1: color1@,
                color2: color2@,
                anchor: anchor@,
                axis: axis@,
            },
        }
    }
}

impl SpecShader {
    /// A gradient needs a non-degenerate axis; projecting onto a zero
    /// axis would divide by zero.
    pub open spec fn wf(self) -> bool {
        match self {
            SpecShader::Constant(_) => true,
            SpecShader::LinearGradient { axis, .. } => !axis.is_zero(),
        }
    }
}

/// Exact linear interpolation of one fixed-point channel at parameter
/// `num / den`, clamped to the two stops outside `[0, 1]`.
pub open spec fn lerp_channel(c1: int, c2: int, num: int, den: int) -> int {
    if num <= 0 {
        c1
    } else if num >= den {
        c2
    } else {
        (c1 * (den - num) + c2 * num) / den
    }
}

/// The color a shader assigns to a cell.
pub open spec fn spec_shade(s: SpecShader, cell: SpecPoint) -> SpecColor {
    match s {
        SpecShader::Constant(c) => c,
        SpecShader::LinearGradient { color1, color2, anchor, axis } => {
            let num = cell.sub_pt(anchor).dot(axis);
            let den = axis.dot(axis);
            SpecColor {
                r: lerp_channel(color1.r, color2.r, num, den),
                g: lerp_channel(color1.g, color2.g, num, den),
                b: lerp_channel(color1.b, color2.b, num, den),
                a: lerp_channel(color1.a, color2.a, num, den),
            }
        },
    }
}

/// Bound on a product of a cell difference and an axis coordinate.
proof fn lemma_mul_bound(a: int, b: int)
    requires
        -0x1_0000_0000 <= a <= 0x1_0000_0000,
        -0x8000_0000 <= b <= 0x8000_0000,
    ensures
        -0x8000_0000_0000_0000 <= a * b <= 0x8000_0000_0000_0000,
{
    assert(-0x8000_0000_0000_0000 <= a * b <= 0x8000_0000_0000_0000) by (nonlinear_arith)
        requires
            -0x1_0000_0000 <= a <= 0x1_0000_0000,
            -0x8000_0000 <= b <= 0x8000_0000,
    ;
}

/// The square of an axis coordinate is nonnegative and bounded, and
/// positive when the coordinate is nonzero.
proof fn lemma_axis_sq(b: int)
    requires
        -0x8000_0000 <= b <= 0x8000_0000,
    ensures
        0 <= b * b <= 0x4000_0000_0000_0000,
        b != 0 ==> b * b >= 1,
{
    assert(0 <= b * b <= 0x4000_0000_0000_0000 && (b != 0 ==> b * b >= 1)) by (nonlinear_arith)
        requires
            -0x8000_0000 <= b <= 0x8000_0000,
    ;
}

/// One channel of the interpolation, in machine arithmetic. The result
/// never leaves `[min(c1, c2), max(c1, c2)]`.
fn lerp_exec(c1: u32, c2: u32, num: i128, den: i128) -> (r: u32)
    requires
        0 < num < den <= 0x1_0000_0000_0000_0000i128,
    ensures
        r as int == lerp_channel(c1 as int, c2 as int, num as int, den as int),
{
    let nn = num as u128;
    let dd = den as u128;
    let hi: u32 = if c1 >= c2 {
        c1
    } else {
        c2
    };
    proof {
        assert((c1 as int) * (dd - nn) <= (hi as int) * (dd - nn) && (c2 as int) * (nn as int) <= (
        hi as int) * (nn as int) && 0 <= (c1 as int) * (dd - nn) && 0 <= (c2 as int) * (nn as int)
            && (hi as int) * (dd - nn) + (hi as int) * (nn as int) == (hi as int) * (dd as int)
            && (c1 as int) * (dd - nn) <= 0xffff_ffff_0000_0000_0000_0000 && (c2 as int) * (
        nn as int) <= 0xffff_ffff_0000_0000_0000_0000) by (nonlinear_arith)
            requires
                0 < nn < dd <= 0x1_0000_0000_0000_0000,
                c1 <= hi < 0x1_0000_0000,
                c2 <= hi,
        ;
    }
    let val: u128 = (c1 as u128) * (dd - nn) + (c2 as u128) * nn;
    let q: u128 = val / dd;
    proof {
        assert(val <= (hi as int) * (dd as int));
        vstd::arithmetic::div_mod::lemma_div_is_ordered(
            val as int,
            (hi as int) * (dd as int),
            dd as int,
        );
        vstd::arithmetic::div_mod::lemma_div_by_multiple(hi as int, dd as int);
        assert(q <= hi);
    }
    q as u32
}

impl Shader {
    /// The color this shader assigns to `cell`: pure, exact, and free of
    /// side effects. A gradient projects the cell onto its axis and
    /// interpolates; outside the two stops the nearest stop's color is
    /// returned unchanged.
    pub fn evaluate(&self, cell: Point3) -> (r: Color)
        requires
            self@.wf(),
        ensures
            r@ == spec_shade(self@, cell@),
    {
        match self {
            Shader::Constant(c) => *c,
            Shader::LinearGradient { color1, color2, anchor, axis } => {
                let ax: i128 = axis.x as i128;
                let ay: i128 = axis.y as i128;
                let az: i128 = axis.z as i128;
                let nx: i128 = cell.x as i128 - anchor.x as i128;
                let ny: i128 = cell.y as i128 - anchor.y as i128;
                let nz: i128 = cell.z as i128 - anchor.z as i128;
                proof {
                    lemma_mul_bound(nx as int, ax as int);
                    lemma_mul_bound(ny as int, ay as int);
                    lemma_mul_bound(nz as int, az as int);
                    lemma_axis_sq(ax as int);
                    lemma_axis_sq(ay as int);
                    lemma_axis_sq(az as int);
                }
                let num: i128 = nx * ax + ny * ay + nz * az;
                let den: i128 = ax * ax + ay * ay + az * az;
                if num <= 0 {
                    *color1
                } else if num >= den {
                    *color2
                } else {
                    Color {
                        r: lerp_exec(color1.r, color2.r, num, den),
                        g: lerp_exec(color1.g, color2.g, num, den),
                        b: lerp_exec(color1.b, color2.b, num, den),
                        a: lerp_exec(color1.a, color2.a, num, den),
                    }
                }
            },
        }
    }
}

/// A gradient yields its first color exactly at every cell whose
/// projection onto the axis is the anchor (parameter zero).
pub proof fn lemma_gradient_at_start(
    color1: SpecColor,
    color2: SpecColor,
    anchor: SpecPoint,
    axis: SpecVector,
    cell: SpecPoint,
)
    requires
        cell.sub_pt(anchor).dot(axis) == 0,
    ensures
        spec_shade(SpecShader::LinearGradient { color1, color2, anchor, axis }, cell) == color1,
{
    assert(spec_shade(SpecShader::LinearGradient { color1, color2, anchor, axis }, cell)
        =~= color1);
}

/// A gradient yields its second color exactly at every cell whose
/// projection onto the axis is the far stop (parameter one).
pub proof fn lemma_gradient_at_end(
    color1: SpecColor,
    color2: SpecColor,
    anchor: SpecPoint,
    axis: SpecVector,
    cell: SpecPoint,
)
    requires
        !axis.is_zero(),
        cell.sub_pt(anchor).dot(axis) == axis.dot(axis),
    ensures
        spec_shade(SpecShader::LinearGradient { color1, color2, anchor, axis }, cell) == color2,
{
    if axis.x != 0 {
        lemma_axis_sq_pos(axis.x, axis.y, axis.z);
    } else if axis.y != 0 {
        lemma_axis_sq_pos(axis.y, axis.x, axis.z);
    } else {
        lemma_axis_sq_pos(axis.z, axis.x, axis.y);
    }
    assert(axis.dot(axis) > 0);
    assert(spec_shade(SpecShader::LinearGradient { color1, color2, anchor, axis }, cell)
        =~= color2);
}

/// A sum of three squares with one nonzero term is positive.
proof fn lemma_axis_sq_pos(a: int, b: int, c: int)
    requires
        a != 0,
    ensures
        a * a + b * b + c * c > 0,
{
    assert(a * a + b * b + c * c > 0) by (nonlinear_arith)
        requires
            a != 0,
    ;
}

} // verus!
