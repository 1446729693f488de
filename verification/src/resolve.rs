//! The command resolver: from a command name and an ordered argument
//! list to a shape and a shader. The table of commands is fixed; each
//! command reads its arguments in a fixed positional order, geometry
//! first, then either one color (solid) or two colors, a gradient
//! anchor and a gradient axis (gradient). An unrecognized name fails
//! with `UnknownCommand`, a zero gradient axis with
//! `DegenerateGradientAxis`; a failing command is dropped and never
//! stops the process.

use vstd::prelude::*;
use vstd::utf8::{encode_utf8, encode_utf8_decode_utf8};

use crate::geometry::{
    all_cells, all_cells_spec, ball_fits, cuboid_fits, cuboid_spec, discrete_cuboid,
    discrete_frame, discrete_line, discrete_plane, discrete_shell, discrete_sphere, frame_spec,
    line_path, plane_fits, plane_spec, shell_spec, sphere_spec,
};
use crate::model::{in_i32, point_in_i32, pts, Point3, SpecPoint};
use crate::paint::{apply_shape, spec_apply_shape, Grid};
use crate::readers::{
    dsc_point_3, dsc_vector_3, lin_srgba, rd_color, rd_int, rd_point, rd_vector, read_int, Arg,
    ArgKind, CommandError, Rd,
};
use crate::shader::{Shader, SpecShader};

verus! {

/// Outcome of resolving one command, at the specification level.
pub enum SpecResolved {
    /// The ordered cells to paint and the shader to color them with.
    Shape(Seq<SpecPoint>, SpecShader),
    /// An argument was absent or of the wrong type.
    Malformed(ArgKind, int),
    /// The command name is not in the table.
    Unknown,
    /// A gradient named the zero vector as its axis.
    DegenerateAxis,
}

/// Outcome of reading a gradient tail: the shader and the next cursor
/// position, a malformed argument, or a zero axis.
pub enum GradOutcome {
    GotG(SpecShader, int),
    BadG(ArgKind, int),
    ZeroAxis,
}

/// Read the gradient tail at `i`: two colors, an anchor point and an
/// axis vector; a zero axis is rejected.
pub open spec fn rd_gradient_args(args: Seq<Arg>, i: int) -> GradOutcome {
    match rd_color(args, i) {
        Rd::Got(c1, i1) => match rd_color(args, i1) {
            Rd::Got(c2, i2) => match rd_point(args, i2) {
                Rd::Got(anchor, i3) => match rd_vector(args, i3) {
                    Rd::Got(axis, i4) => if axis.is_zero() {
                        GradOutcome::ZeroAxis
                    } else {
                        GradOutcome::GotG(
                            SpecShader::LinearGradient { color1: c1, color2: c2, anchor, axis },
                            i4,
                        )
                    },
                    Rd::Bad(k, at) => GradOutcome::BadG(k, at),
                },
                Rd::Bad(k, at) => GradOutcome::BadG(k, at),
            },
            Rd::Bad(k, at) => GradOutcome::BadG(k, at),
        },
        Rd::Bad(k, at) => GradOutcome::BadG(k, at),
    }
}

/// How an executable resolution result corresponds to the specified
/// outcome. For `Unknown` the carried diagnostics are stated by
/// `resolve` itself.
pub open spec fn outcome_matches(
    out: SpecResolved,
    r: Result<(Vec<Point3>, Shader), CommandError>,
) -> bool {
    match out {
        SpecResolved::Shape(cells, sh) => r matches Ok(o) && pts(o.0@) == cells && o.1@ == sh
            && sh.wf(),
        SpecResolved::Malformed(k, at) => r matches Err(CommandError::MalformedArgument {
            expected,
            at: a,
        }) && expected == k && a as int == at,
        SpecResolved::Unknown => r matches Err(e) && e is UnknownCommand,
        SpecResolved::DegenerateAxis => r matches Err(e) && e is DegenerateGradientAxis,
    }
}

/// A solid command tail: one color, shading the given shape constantly.
pub open spec fn spec_solid(args: Seq<Arg>, i: int, shape: Seq<SpecPoint>) -> SpecResolved {
    match rd_color(args, i) {
        Rd::Got(c, _) => SpecResolved::Shape(shape, SpecShader::Constant(c)),
        Rd::Bad(k, at) => SpecResolved::Malformed(k, at),
    }
}

/// A gradient command tail: two colors, an anchor and an axis, shading
/// the given shape by linear interpolation along the axis.
pub open spec fn spec_grad(args: Seq<Arg>, i: int, shape: Seq<SpecPoint>) -> SpecResolved {
    match rd_gradient_args(args, i) {
        GradOutcome::GotG(sh, _) => SpecResolved::Shape(shape, sh),
        GradOutcome::BadG(k, at) => SpecResolved::Malformed(k, at),
        GradOutcome::ZeroAxis => SpecResolved::DegenerateAxis,
    }
}

/// `/dsc/voxel`: one point, one color, a single-cell shape.
pub open spec fn spec_voxel(args: Seq<Arg>) -> SpecResolved {
    match rd_point(args, 0) {
        Rd::Got(p, i1) => spec_solid(args, i1, seq![p]),
        Rd::Bad(k, at) => SpecResolved::Malformed(k, at),
    }
}

/// `/dsc/line`: point, vector, color.
pub open spec fn spec_line_cmd(args: Seq<Arg>) -> SpecResolved {
    match rd_point(args, 0) {
        Rd::Got(p, i1) => match rd_vector(args, i1) {
            Rd::Got(d, i2) => spec_solid(args, i2, line_path(p, d)),
            Rd::Bad(k, at) => SpecResolved::Malformed(k, at),
        },
        Rd::Bad(k, at) => SpecResolved::Malformed(k, at),
    }
}

/// `/dsc/line/grad`: point, vector, then the gradient tail.
pub open spec fn spec_line_grad(args: Seq<Arg>) -> SpecResolved {
    match rd_point(args, 0) {
        Rd::Got(p, i1) => match rd_vector(args, i1) {
            Rd::Got(d, i2) => spec_grad(args, i2, line_path(p, d)),
            Rd::Bad(k, at) => SpecResolved::Malformed(k, at),
        },
        Rd::Bad(k, at) => SpecResolved::Malformed(k, at),
    }
}

/// `/dsc/plane`: point, two vectors, color.
pub open spec fn spec_plane_cmd(args: Seq<Arg>) -> SpecResolved {
    match rd_point(args, 0) {
        Rd::Got(p, i1) => match rd_vector(args, i1) {
            Rd::Got(u, i2) => match rd_vector(args, i2) {
                Rd::Got(v, i3) => spec_solid(args, i3, plane_spec(p, u, v)),
                Rd::Bad(k, at) => SpecResolved::Malformed(k, at),
            },
            Rd::Bad(k, at) => SpecResolved::Malformed(k, at),
        },
        Rd::Bad(k, at) => SpecResolved::Malformed(k, at),
    }
}

/// `/dsc/plane/grad`: point, two vectors, then the gradient tail.
pub open spec fn spec_plane_grad(args: Seq<Arg>) -> SpecResolved {
    match rd_point(args, 0) {
        Rd::Got(p, i1) => match rd_vector(args, i1) {
            Rd::Got(u, i2) => match rd_vector(args, i2) {
                Rd::Got(v, i3) => spec_grad(args, i3, plane_spec(p, u, v)),
                Rd::Bad(k, at) => SpecResolved::Malformed(k, at),
            },
            Rd::Bad(k, at) => SpecResolved::Malformed(k, at),
        },
        Rd::Bad(k, at) => SpecResolved::Malformed(k, at),
    }
}

/// `/dsc/frame`: point, two vectors, color.
pub open spec fn spec_frame_cmd(args: Seq<Arg>) -> SpecResolved {
    match rd_point(args, 0) {
        Rd::Got(p, i1) => match rd_vector(args, i1) {
            Rd::Got(u, i2) => match rd_vector(args, i2) {
                Rd::Got(v, i3) => spec_solid(args, i3, frame_spec(p, u, v)),
                Rd::Bad(k, at) => SpecResolved::Malformed(k, at),
            },
            Rd::Bad(k, at) => SpecResolved::Malformed(k, at),
        },
        Rd::Bad(k, at) => SpecResolved::Malformed(k, at),
    }
}

/// `/dsc/frame/grad`: point, two vectors, then the gradient tail.
pub open spec fn spec_frame_grad(args: Seq<Arg>) -> SpecResolved {
    match rd_point(args, 0) {
        Rd::Got(p, i1) => match rd_vector(args, i1) {
            Rd::Got(u, i2) => match rd_vector(args, i2) {
                Rd::Got(v, i3) => spec_grad(args, i3, frame_spec(p, u, v)),
                Rd::Bad(k, at) => SpecResolved::Malformed(k, at),
            },
            Rd::Bad(k, at) => SpecResolved::Malformed(k, at),
        },
        Rd::Bad(k, at) => SpecResolved::Malformed(k, at),
    }
}

/// `/dsc/cuboid`: point, three vectors, color.
pub open spec fn spec_cuboid_cmd(args: Seq<Arg>) -> SpecResolved {
    match rd_point(args, 0) {
        Rd::Got(p, i1) => match rd_vector(args, i1) {
            Rd::Got(u, i2) => match rd_vector(args, i2) {
                Rd::Got(v, i3) => match rd_vector(args, i3) {
                    Rd::Got(w, i4) => spec_solid(args, i4, cuboid_spec(p, u, v, w)),
                    Rd::Bad(k, at) => SpecResolved::Malformed(k, at),
                },
                Rd::Bad(k, at) => SpecResolved::Malformed(k, at),
            },
            Rd::Bad(k, at) => SpecResolved::Malformed(k, at),
        },
        Rd::Bad(k, at) => SpecResolved::Malformed(k, at),
    }
}

/// `/dsc/cuboid/grad`: point, three vectors, then the gradient tail.
pub open spec fn spec_cuboid_grad(args: Seq<Arg>) -> SpecResolved {
    match rd_point(args, 0) {
        Rd::Got(p, i1) => match rd_vector(args, i1) {
            Rd::Got(u, i2) => match rd_vector(args, i2) {
                Rd::Got(v, i3) => match rd_vector(args, i3) {
                    Rd::Got(w, i4) => spec_grad(args, i4, cuboid_spec(p, u, v, w)),
                    Rd::Bad(k, at) => SpecResolved::Malformed(k, at),
                },
                Rd::Bad(k, at) => SpecResolved::Malformed(k, at),
            },
            Rd::Bad(k, at) => SpecResolved::Malformed(k, at),
        },
        Rd::Bad(k, at) => SpecResolved::Malformed(k, at),
    }
}

/// `/dsc/sphere`: center, integer radius, color.
pub open spec fn spec_sphere_cmd(args: Seq<Arg>) -> SpecResolved {
    match rd_point(args, 0) {
        Rd::Got(c, i1) => match rd_int(args, i1) {
            Rd::Got(rad, i2) => spec_solid(args, i2, sphere_spec(c, rad as int)),
            Rd::Bad(k, at) => SpecResolved::Malformed(k, at),
        },
        Rd::Bad(k, at) => SpecResolved::Malformed(k, at),
    }
}

/// `/dsc/sphere/grad`: center, integer radius, then the gradient tail.
pub open spec fn spec_sphere_grad(args: Seq<Arg>) -> SpecResolved {
    match rd_point(args, 0) {
        Rd::Got(c, i1) => match rd_int(args, i1) {
            Rd::Got(rad, i2) => spec_grad(args, i2, sphere_spec(c, rad as int)),
            Rd::Bad(k, at) => SpecResolved::Malformed(k, at),
        },
        Rd::Bad(k, at) => SpecResolved::Malformed(k, at),
    }
}

/// `/dsc/shell`: center, integer radius, color.
pub open spec fn spec_shell_cmd(args: Seq<Arg>) -> SpecResolved {
    match rd_point(args, 0) {
        Rd::Got(c, i1) => match rd_int(args, i1) {
            Rd::Got(rad, i2) => spec_solid(args, i2, shell_spec(c, rad as int)),
            Rd::Bad(k, at) => SpecResolved::Malformed(k, at),
        },
        Rd::Bad(k, at) => SpecResolved::Malformed(k, at),
    }
}

/// `/dsc/shell/grad`: center, integer radius, then the gradient tail.
pub open spec fn spec_shell_grad(args: Seq<Arg>) -> SpecResolved {
    match rd_point(args, 0) {
        Rd::Got(c, i1) => match rd_int(args, i1) {
            Rd::Got(rad, i2) => spec_grad(args, i2, shell_spec(c, rad as int)),
            Rd::Bad(k, at) => SpecResolved::Malformed(k, at),
        },
        Rd::Bad(k, at) => SpecResolved::Malformed(k, at),
    }
}

/// `/fill/solid`: one color over the whole grid.
pub open spec fn spec_fill_cmd(args: Seq<Arg>) -> SpecResolved {
    spec_solid(args, 0, all_cells_spec())
}

/// `/fill/solid/grad`: a gradient over the whole grid.
pub open spec fn spec_fill_grad(args: Seq<Arg>) -> SpecResolved {
    spec_grad(args, 0, all_cells_spec())
}

/// What `resolve(name, args)` returns, command by command.
pub open spec fn spec_resolve(name: Seq<char>, args: Seq<Arg>) -> SpecResolved {
    if name == "/dsc/voxel"@ {
        spec_voxel(args)
    } else if name == "/dsc/line"@ {
        spec_line_cmd(args)
    } else if name == "/dsc/line/grad"@ {
        spec_line_grad(args)
    } else if name == "/dsc/plane"@ {
        spec_plane_cmd(args)
    } else if name == "/dsc/plane/grad"@ {
        spec_plane_grad(args)
    } else if name == "/dsc/frame"@ {
        spec_frame_cmd(args)
    } else if name == "/dsc/frame/grad"@ {
        spec_frame_grad(args)
    } else if name == "/dsc/cuboid"@ {
        spec_cuboid_cmd(args)
    } else if name == "/dsc/cuboid/grad"@ {
        spec_cuboid_grad(args)
    } else if name == "/dsc/sphere"@ {
        spec_sphere_cmd(args)
    } else if name == "/dsc/sphere/grad"@ {
        spec_sphere_grad(args)
    } else if name == "/dsc/shell"@ {
        spec_shell_cmd(args)
    } else if name == "/dsc/shell/grad"@ {
        spec_shell_grad(args)
    } else if name == "/fill/solid"@ {
        spec_fill_cmd(args)
    } else if name == "/fill/solid/grad"@ {
        spec_fill_grad(args)
    } else {
        SpecResolved::Unknown
    }
}

/// Machine-limit precondition of a line command: the far endpoint fits.
pub open spec fn fits_line(args: Seq<Arg>) -> bool {
    match rd_point(args, 0) {
        Rd::Got(p, i1) => match rd_vector(args, i1) {
            Rd::Got(d, _) => point_in_i32(p.add_vec(d)),
            Rd::Bad(_, _) => true,
        },
        Rd::Bad(_, _) => true,
    }
}

/// Machine-limit precondition of a plane or frame command: the corners
/// of the parallelogram fit.
pub open spec fn fits_plane(args: Seq<Arg>) -> bool {
    match rd_point(args, 0) {
        Rd::Got(p, i1) => match rd_vector(args, i1) {
            Rd::Got(u, i2) => match rd_vector(args, i2) {
                Rd::Got(v, _) => plane_fits(p, u, v),
                Rd::Bad(_, _) => true,
            },
            Rd::Bad(_, _) => true,
        },
        Rd::Bad(_, _) => true,
    }
}

/// Machine-limit precondition of a cuboid command: all eight corners
/// fit.
pub open spec fn fits_cuboid(args: Seq<Arg>) -> bool {
    match rd_point(args, 0) {
        Rd::Got(p, i1) => match rd_vector(args, i1) {
            Rd::Got(u, i2) => match rd_vector(args, i2) {
                Rd::Got(v, i3) => match rd_vector(args, i3) {
                    Rd::Got(w, _) => cuboid_fits(p, u, v, w),
                    Rd::Bad(_, _) => true,
                },
                Rd::Bad(_, _) => true,
            },
            Rd::Bad(_, _) => true,
        },
        Rd::Bad(_, _) => true,
    }
}

/// Machine-limit precondition of a sphere or shell command: both ends
/// of the bounding box fit.
pub open spec fn fits_ball(args: Seq<Arg>) -> bool {
    match rd_point(args, 0) {
        Rd::Got(c, i1) => match rd_int(args, i1) {
            Rd::Got(rad, _) => ball_fits(c, rad as int),
            Rd::Bad(_, _) => true,
        },
        Rd::Bad(_, _) => true,
    }
}

/// The machine limits a caller of `resolve` must respect: the geometry
/// named by the arguments must fit the grid point representation.
/// Malformed or unknown commands are always admitted; they fail without
/// any arithmetic.
pub open spec fn spec_resolve_fits(name: Seq<char>, args: Seq<Arg>) -> bool {
    if name == "/dsc/line"@ || name == "/dsc/line/grad"@ {
        fits_line(args)
    } else if name == "/dsc/plane"@ || name == "/dsc/plane/grad"@ || name == "/dsc/frame"@ || name
        == "/dsc/frame/grad"@ {
        fits_plane(args)
    } else if name == "/dsc/cuboid"@ || name == "/dsc/cuboid/grad"@ {
        fits_cuboid(args)
    } else if name == "/dsc/sphere"@ || name == "/dsc/sphere/grad"@ || name == "/dsc/shell"@
        || name == "/dsc/shell/grad"@ {
        fits_ball(args)
    } else {
        true
    }
}

/// Whether two strings hold the same characters, decided by comparing
/// their UTF-8 bytes.
fn str_eq(a: &str, b: &str) -> (r: bool)
    ensures
        r == (a@ == b@),
{
    let ab = a.as_bytes();
    let bb = b.as_bytes();
    if ab.len() != bb.len() {
        return false;
    }
    let mut i: usize = 0;
    while i < ab.len()
        invariant
            ab@ == encode_utf8(a@),
            bb@ == encode_utf8(b@),
            ab@.len() == bb@.len(),
            0 <= i <= ab@.len(),
            forall|j: int| 0 <= j < i ==> ab@[j] == bb@[j],
        decreases ab@.len() - i,
    {
        if ab[i] != bb[i] {
            return false;
        }
        i = i + 1;
    }
    proof {
        assert(ab@ =~= bb@);
        encode_utf8_decode_utf8(a@);
        encode_utf8_decode_utf8(b@);
    }
    true
}

/// An element-by-element copy of the argument list, carried in
/// `UnknownCommand` for diagnostics.
fn clone_args(args: &Vec<Arg>) -> (r: Vec<Arg>)
    ensures
        r@ == args@,
{
    let mut out: Vec<Arg> = Vec::new();
    let mut i: usize = 0;
    while i < args.len()
        invariant
            0 <= i <= args@.len(),
            out@ == args@.take(i as int),
        decreases args@.len() - i,
    {
        out.push(args[i]);
        proof {
            assert(out@ =~= args@.take(i as int + 1));
        }
        i = i + 1;
    }
    proof {
        assert(args@.take(args@.len() as int) =~= args@);
    }
    out
}

/// Read the gradient tail and build its shader.
fn read_gradient(args: &Vec<Arg>, pos: &mut usize) -> (r: Result<Shader, CommandError>)
    ensures
        ({
            match rd_gradient_args(args@, *old(pos) as int) {
                GradOutcome::GotG(sh, next) => (r matches Ok(s) && s@ == sh && sh.wf())
                    && *final(pos) == next,
                GradOutcome::BadG(k, at) => r matches Err(CommandError::MalformedArgument {
                    expected,
                    at: a,
                }) && expected == k && a as int == at,
                GradOutcome::ZeroAxis => r matches Err(e) && e is DegenerateGradientAxis,
            }
        }),
{
    let clr1 = match lin_srgba(args, pos) {
        Ok(v) => v,
        Err(e) => {
            return Err(e);
        },
    };
    let clr2 = match lin_srgba(args, pos) {
        Ok(v) => v,
        Err(e) => {
            return Err(e);
        },
    };
    let clr_pt = match dsc_point_3(args, pos) {
        Ok(v) => v,
        Err(e) => {
            return Err(e);
        },
    };
    let clr_dir = match dsc_vector_3(args, pos) {
        Ok(v) => v,
        Err(e) => {
            return Err(e);
        },
    };
    if clr_dir.is_zero() {
        return Err(CommandError::DegenerateGradientAxis);
    }
    Ok(Shader::LinearGradient { color1: clr1, color2: clr2, anchor: clr_pt, axis: clr_dir })
}

/// Resolve one decoded command into its shape and shader. The shape is
/// fully materialized, in order; the shader is pure and closed over the
/// command's parameters. Errors name exactly what went wrong and are
/// meant to be reported and dropped at the single-command boundary.
pub fn resolve(name: &str, args: &Vec<Arg>) -> (r: Result<(Vec<Point3>, Shader), CommandError>)
    requires
        spec_resolve_fits(name@, args@),
    ensures
        outcome_matches(spec_resolve(name@, args@), r),
        spec_resolve(name@, args@) is Unknown ==> (r matches Err(
            CommandError::UnknownCommand { name: n, args: a },
        ) && n@ == name@ && a@ == args@),
{
    if str_eq(name, "/dsc/voxel") {
        cmd_voxel(args)
    } else if str_eq(name, "/dsc/line") {
        cmd_line(args)
    } else if str_eq(name, "/dsc/line/grad") {
        cmd_line_grad(args)
    } else if str_eq(name, "/dsc/plane") {
        cmd_plane(args)
    } else if str_eq(name, "/dsc/plane/grad") {
        cmd_plane_grad(args)
    } else if str_eq(name, "/dsc/frame") {
        cmd_frame(args)
    } else if str_eq(name, "/dsc/frame/grad") {
        cmd_frame_grad(args)
    } else if str_eq(name, "/dsc/cuboid") {
        cmd_cuboid(args)
    } else if str_eq(name, "/dsc/cuboid/grad") {
        cmd_cuboid_grad(args)
    } else if str_eq(name, "/dsc/sphere") {
        cmd_sphere(args)
    } else if str_eq(name, "/dsc/sphere/grad") {
        cmd_sphere_grad(args)
    } else if str_eq(name, "/dsc/shell") {
        cmd_shell(args)
    } else if str_eq(name, "/dsc/shell/grad") {
        cmd_shell_grad(args)
    } else if str_eq(name, "/fill/solid") {
        cmd_fill(args)
    } else if str_eq(name, "/fill/solid/grad") {
        cmd_fill_grad(args)
    } else {
        Err(CommandError::UnknownCommand { name: name.to_owned(), args: clone_args(args) })
    }
}

fn cmd_voxel(args: &Vec<Arg>) -> (r: Result<(Vec<Point3>, Shader), CommandError>)
    ensures
        outcome_matches(spec_voxel(args@), r),
{
    let mut pos: usize = 0;
    let pt = match dsc_point_3(args, &mut pos) {
        Ok(v) => v,
        Err(e) => {
            return Err(e);
        },
    };
    let clr = match lin_srgba(args, &mut pos) {
        Ok(v) => v,
        Err(e) => {
            return Err(e);
        },
    };
    let mut shape: Vec<Point3> = Vec::new();
    shape.push(pt);
    proof {
        assert(pts(shape@) =~= seq![pt@]);
    }
    Ok((shape, Shader::Constant(clr)))
}

fn cmd_line(args: &Vec<Arg>) -> (r: Result<(Vec<Point3>, Shader), CommandError>)
    requires
        fits_line(args@),
    ensures
        outcome_matches(spec_line_cmd(args@), r),
{
    let mut pos: usize = 0;
    let pt = match dsc_point_3(args, &mut pos) {
        Ok(v) => v,
        Err(e) => {
            return Err(e);
        },
    };
    let dir = match dsc_vector_3(args, &mut pos) {
        Ok(v) => v,
        Err(e) => {
            return Err(e);
        },
    };
    let clr = match lin_srgba(args, &mut pos) {
        Ok(v) => v,
        Err(e) => {
            return Err(e);
        },
    };
    Ok((discrete_line(pt, dir), Shader::Constant(clr)))
}

fn cmd_line_grad(args: &Vec<Arg>) -> (r: Result<(Vec<Point3>, Shader), CommandError>)
    requires
        fits_line(args@),
    ensures
        outcome_matches(spec_line_grad(args@), r),
{
    let mut pos: usize = 0;
    let pt = match dsc_point_3(args, &mut pos) {
        Ok(v) => v,
        Err(e) => {
            return Err(e);
        },
    };
    let dir = match dsc_vector_3(args, &mut pos) {
        Ok(v) => v,
        Err(e) => {
            return Err(e);
        },
    };
    let shader = match read_gradient(args, &mut pos) {
        Ok(s) => s,
        Err(e) => {
            return Err(e);
        },
    };
    Ok((discrete_line(pt, dir), shader))
}

fn cmd_plane(args: &Vec<Arg>) -> (r: Result<(Vec<Point3>, Shader), CommandError>)
    requires
        fits_plane(args@),
    ensures
        outcome_matches(spec_plane_cmd(args@), r),
{
    let mut pos: usize = 0;
    let pt = match dsc_point_3(args, &mut pos) {
        Ok(v) => v,
        Err(e) => {
            return Err(e);
        },
    };
    let vec1 = match dsc_vector_3(args, &mut pos) {
        Ok(v) => v,
        Err(e) => {
            return Err(e);
        },
    };
    let vec2 = match dsc_vector_3(args, &mut pos) {
        Ok(v) => v,
        Err(e) => {
            return Err(e);
        },
    };
    let clr = match lin_srgba(args, &mut pos) {
        Ok(v) => v,
        Err(e) => {
            return Err(e);
        },
    };
    Ok((discrete_plane(pt, vec1, vec2), Shader::Constant(clr)))
}

fn cmd_plane_grad(args: &Vec<Arg>) -> (r: Result<(Vec<Point3>, Shader), CommandError>)
    requires
        fits_plane(args@),
    ensures
        outcome_matches(spec_plane_grad(args@), r),
{
    let mut pos: usize = 0;
    let pt = match dsc_point_3(args, &mut pos) {
        Ok(v) => v,
        Err(e) => {
            return Err(e);
        },
    };
    let vec1 = match dsc_vector_3(args, &mut pos) {
        Ok(v) => v,
        Err(e) => {
            return Err(e);
        },
    };
    let vec2 = match dsc_vector_3(args, &mut pos) {
        Ok(v) => v,
        Err(e) => {
            return Err(e);
        },
    };
    let shader = match read_gradient(args, &mut pos) {
        Ok(s) => s,
        Err(e) => {
            return Err(e);
        },
    };
    Ok((discrete_plane(pt, vec1, vec2), shader))
}

fn cmd_frame(args: &Vec<Arg>) -> (r: Result<(Vec<Point3>, Shader), CommandError>)
    requires
        fits_plane(args@),
    ensures
        outcome_matches(spec_frame_cmd(args@), r),
{
    let mut pos: usize = 0;
    let anchor = match dsc_point_3(args, &mut pos) {
        Ok(v) => v,
        Err(e) => {
            return Err(e);
        },
    };
    let vec1 = match dsc_vector_3(args, &mut pos) {
        Ok(v) => v,
        Err(e) => {
            return Err(e);
        },
    };
    let vec2 = match dsc_vector_3(args, &mut pos) {
        Ok(v) => v,
        Err(e) => {
            return Err(e);
        },
    };
    let clr = match lin_srgba(args, &mut pos) {
        Ok(v) => v,
        Err(e) => {
            return Err(e);
        },
    };
    Ok((discrete_frame(anchor, vec1, vec2), Shader::Constant(clr)))
}

fn cmd_frame_grad(args: &Vec<Arg>) -> (r: Result<(Vec<Point3>, Shader), CommandError>)
    requires
        fits_plane(args@),
    ensures
        outcome_matches(spec_frame_grad(args@), r),
{
    let mut pos: usize = 0;
    let anchor = match dsc_point_3(args, &mut pos) {
        Ok(v) => v,
        Err(e) => {
            return Err(e);
        },
    };
    let vec1 = match dsc_vector_3(args, &mut pos) {
        Ok(v) => v,
        Err(e) => {
            return Err(e);
        },
    };
    let vec2 = match dsc_vector_3(args, &mut pos) {
        Ok(v) => v,
        Err(e) => {
            return Err(e);
        },
    };
    let shader = match read_gradient(args, &mut pos) {
        Ok(s) => s,
        Err(e) => {
            return Err(e);
        },
    };
    Ok((discrete_frame(anchor, vec1, vec2), shader))
}

fn cmd_cuboid(args: &Vec<Arg>) -> (r: Result<(Vec<Point3>, Shader), CommandError>)
    requires
        fits_cuboid(args@),
    ensures
        outcome_matches(spec_cuboid_cmd(args@), r),
{
    let mut pos: usize = 0;
    let pt = match dsc_point_3(args, &mut pos) {
        Ok(v) => v,
        Err(e) => {
            return Err(e);
        },
    };
    let vec1 = match dsc_vector_3(args, &mut pos) {
        Ok(v) => v,
        Err(e) => {
            return Err(e);
        },
    };
    let vec2 = match dsc_vector_3(args, &mut pos) {
        Ok(v) => v,
        Err(e) => {
            return Err(e);
        },
    };
    let vec3 = match dsc_vector_3(args, &mut pos) {
        Ok(v) => v,
        Err(e) => {
            return Err(e);
        },
    };
    let clr = match lin_srgba(args, &mut pos) {
        Ok(v) => v,
        Err(e) => {
            return Err(e);
        },
    };
    Ok((discrete_cuboid(pt, vec1, vec2, vec3), Shader::Constant(clr)))
}

fn cmd_cuboid_grad(args: &Vec<Arg>) -> (r: Result<(Vec<Point3>, Shader), CommandError>)
    requires
        fits_cuboid(args@),
    ensures
        outcome_matches(spec_cuboid_grad(args@), r),
{
    let mut pos: usize = 0;
    let pt = match dsc_point_3(args, &mut pos) {
        Ok(v) => v,
        Err(e) => {
            return Err(e);
        },
    };
    let vec1 = match dsc_vector_3(args, &mut pos) {
        Ok(v) => v,
        Err(e) => {
            return Err(e);
        },
    };
    let vec2 = match dsc_vector_3(args, &mut pos) {
        Ok(v) => v,
        Err(e) => {
            return Err(e);
        },
    };
    let vec3 = match dsc_vector_3(args, &mut pos) {
        Ok(v) => v,
        Err(e) => {
            return Err(e);
        },
    };
    let shader = match read_gradient(args, &mut pos) {
        Ok(s) => s,
        Err(e) => {
            return Err(e);
        },
    };
    Ok((discrete_cuboid(pt, vec1, vec2, vec3), shader))
}

fn cmd_sphere(args: &Vec<Arg>) -> (r: Result<(Vec<Point3>, Shader), CommandError>)
    requires
        fits_ball(args@),
    ensures
        outcome_matches(spec_sphere_cmd(args@), r),
{
    let mut pos: usize = 0;
    let center = match dsc_point_3(args, &mut pos) {
        Ok(v) => v,
        Err(e) => {
            return Err(e);
        },
    };
    let p = match read_int(args, &mut pos) {
        Ok(v) => v,
        Err(e) => {
            return Err(e);
        },
    };
    let clr = match lin_srgba(args, &mut pos) {
        Ok(v) => v,
        Err(e) => {
            return Err(e);
        },
    };
    Ok((discrete_sphere(center, p), Shader::Constant(clr)))
}

fn cmd_sphere_grad(args: &Vec<Arg>) -> (r: Result<(Vec<Point3>, Shader), CommandError>)
    requires
        fits_ball(args@),
    ensures
        outcome_matches(spec_sphere_grad(args@), r),
{
    let mut pos: usize = 0;
    let center = match dsc_point_3(args, &mut pos) {
        Ok(v) => v,
        Err(e) => {
            return Err(e);
        },
    };
    let p = match read_int(args, &mut pos) {
        Ok(v) => v,
        Err(e) => {
            return Err(e);
        },
    };
    let shader = match read_gradient(args, &mut pos) {
        Ok(s) => s,
        Err(e) => {
            return Err(e);
        },
    };
    Ok((discrete_sphere(center, p), shader))
}

fn cmd_shell(args: &Vec<Arg>) -> (r: Result<(Vec<Point3>, Shader), CommandError>)
    requires
        fits_ball(args@),
    ensures
        outcome_matches(spec_shell_cmd(args@), r),
{
    let mut pos: usize = 0;
    let center = match dsc_point_3(args, &mut pos) {
        Ok(v) => v,
        Err(e) => {
            return Err(e);
        },
    };
    let p = match read_int(args, &mut pos) {
        Ok(v) => v,
        Err(e) => {
            return Err(e);
        },
    };
    let clr = match lin_srgba(args, &mut pos) {
        Ok(v) => v,
        Err(e) => {
            return Err(e);
        },
    };
    Ok((discrete_shell(center, p), Shader::Constant(clr)))
}

fn cmd_shell_grad(args: &Vec<Arg>) -> (r: Result<(Vec<Point3>, Shader), CommandError>)
    requires
        fits_ball(args@),
    ensures
        outcome_matches(spec_shell_grad(args@), r),
{
    let mut pos: usize = 0;
    let center = match dsc_point_3(args, &mut pos) {
        Ok(v) => v,
        Err(e) => {
            return Err(e);
        },
    };
    let p = match read_int(args, &mut pos) {
        Ok(v) => v,
        Err(e) => {
            return Err(e);
        },
    };
    let shader = match read_gradient(args, &mut pos) {
        Ok(s) => s,
        Err(e) => {
            return Err(e);
        },
    };
    Ok((discrete_shell(center, p), shader))
}

fn cmd_fill(args: &Vec<Arg>) -> (r: Result<(Vec<Point3>, Shader), CommandError>)
    ensures
        outcome_matches(spec_fill_cmd(args@), r),
{
    let mut pos: usize = 0;
    let clr = match lin_srgba(args, &mut pos) {
        Ok(v) => v,
        Err(e) => {
            return Err(e);
        },
    };
    Ok((all_cells(), Shader::Constant(clr)))
}

fn cmd_fill_grad(args: &Vec<Arg>) -> (r: Result<(Vec<Point3>, Shader), CommandError>)
    ensures
        outcome_matches(spec_fill_grad(args@), r),
{
    let mut pos: usize = 0;
    let shader = match read_gradient(args, &mut pos) {
        Ok(s) => s,
        Err(e) => {
            return Err(e);
        },
    };
    Ok((all_cells(), shader))
}

/// Whether an unbounded coordinate pair fits the grid point range.
fn fits_i32(v: i64) -> (r: bool)
    ensures
        r == in_i32(v as int),
{
    -0x8000_0000i64 <= v && v <= 0x7fff_ffffi64
}

/// Whether the point displaced from `p` by the given i64 offsets fits.
fn point_fits(x: i64, y: i64, z: i64) -> (r: bool)
    ensures
        r == point_in_i32(SpecPoint { x: x as int, y: y as int, z: z as int }),
{
    fits_i32(x) && fits_i32(y) && fits_i32(z)
}

fn check_fits_line(args: &Vec<Arg>) -> (r: bool)
    ensures
        r == fits_line(args@),
{
    let mut pos: usize = 0;
    let p = match dsc_point_3(args, &mut pos) {
        Ok(v) => v,
        Err(_) => {
            return true;
        },
    };
    let d = match dsc_vector_3(args, &mut pos) {
        Ok(v) => v,
        Err(_) => {
            return true;
        },
    };
    point_fits(
        p.x as i64 + d.x as i64,
        p.y as i64 + d.y as i64,
        p.z as i64 + d.z as i64,
    )
}

fn check_fits_plane(args: &Vec<Arg>) -> (r: bool)
    ensures
        r == fits_plane(args@),
{
    let mut pos: usize = 0;
    let p = match dsc_point_3(args, &mut pos) {
        Ok(v) => v,
        Err(_) => {
            return true;
        },
    };
    let u = match dsc_vector_3(args, &mut pos) {
        Ok(v) => v,
        Err(_) => {
            return true;
        },
    };
    let v = match dsc_vector_3(args, &mut pos) {
        Ok(v) => v,
        Err(_) => {
            return true;
        },
    };
    point_fits(
        p.x as i64 + u.x as i64,
        p.y as i64 + u.y as i64,
        p.z as i64 + u.z as i64,
    ) && point_fits(
        p.x as i64 + v.x as i64,
        p.y as i64 + v.y as i64,
        p.z as i64 + v.z as i64,
    ) && point_fits(
        p.x as i64 + u.x as i64 + v.x as i64,
        p.y as i64 + u.y as i64 + v.y as i64,
        p.z as i64 + u.z as i64 + v.z as i64,
    )
}

fn check_fits_cuboid(args: &Vec<Arg>) -> (r: bool)
    ensures
        r == fits_cuboid(args@),
{
    let mut pos: usize = 0;
    let p = match dsc_point_3(args, &mut pos) {
        Ok(v) => v,
        Err(_) => {
            return true;
        },
    };
    let u = match dsc_vector_3(args, &mut pos) {
        Ok(v) => v,
        Err(_) => {
            return true;
        },
    };
    let v = match dsc_vector_3(args, &mut pos) {
        Ok(v) => v,
        Err(_) => {
            return true;
        },
    };
    let w = match dsc_vector_3(args, &mut pos) {
        Ok(v) => v,
        Err(_) => {
            return true;
        },
    };
    point_fits(
        p.x as i64 + u.x as i64,
        p.y as i64 + u.y as i64,
        p.z as i64 + u.z as i64,
    ) && point_fits(
        p.x as i64 + v.x as i64,
        p.y as i64 + v.y as i64,
        p.z as i64 + v.z as i64,
    ) && point_fits(
        p.x as i64 + u.x as i64 + v.x as i64,
        p.y as i64 + u.y as i64 + v.y as i64,
        p.z as i64 + u.z as i64 + v.z as i64,
    ) && point_fits(
        p.x as i64 + w.x as i64,
        p.y as i64 + w.y as i64,
        p.z as i64 + w.z as i64,
    ) && point_fits(
        p.x as i64 + u.x as i64 + w.x as i64,
        p.y as i64 + u.y as i64 + w.y as i64,
        p.z as i64 + u.z as i64 + w.z as i64,
    ) && point_fits(
        p.x as i64 + v.x as i64 + w.x as i64,
        p.y as i64 + v.y as i64 + w.y as i64,
        p.z as i64 + v.z as i64 + w.z as i64,
    ) && point_fits(
        p.x as i64 + u.x as i64 + v.x as i64 + w.x as i64,
        p.y as i64 + u.y as i64 + v.y as i64 + w.y as i64,
        p.z as i64 + u.z as i64 + v.z as i64 + w.z as i64,
    )
}

fn check_fits_ball(args: &Vec<Arg>) -> (r: bool)
    ensures
        r == fits_ball(args@),
{
    let mut pos: usize = 0;
    let c = match dsc_point_3(args, &mut pos) {
        Ok(v) => v,
        Err(_) => {
            return true;
        },
    };
    let rad = match read_int(args, &mut pos) {
        Ok(v) => v,
        Err(_) => {
            return true;
        },
    };
    point_fits(
        c.x as i64 - rad as i64,
        c.y as i64 - rad as i64,
        c.z as i64 - rad as i64,
    ) && point_fits(
        c.x as i64 + rad as i64,
        c.y as i64 + rad as i64,
        c.z as i64 + rad as i64,
    )
}

/// Whether the geometry a command names fits the machine limits that
/// `resolve` demands of its caller. An unverified caller tests this
/// before resolving; commands whose arguments fail to parse are always
/// admitted, since they fail before any arithmetic.
pub fn command_fits(name: &str, args: &Vec<Arg>) -> (r: bool)
    ensures
        r == spec_resolve_fits(name@, args@),
{
    if str_eq(name, "/dsc/line") || str_eq(name, "/dsc/line/grad") {
        check_fits_line(args)
    } else if str_eq(name, "/dsc/plane") || str_eq(name, "/dsc/plane/grad") || str_eq(
        name,
        "/dsc/frame",
    ) || str_eq(name, "/dsc/frame/grad") {
        check_fits_plane(args)
    } else if str_eq(name, "/dsc/cuboid") || str_eq(name, "/dsc/cuboid/grad") {
        check_fits_cuboid(args)
    } else if str_eq(name, "/dsc/sphere") || str_eq(name, "/dsc/sphere/grad") || str_eq(
        name,
        "/dsc/shell",
    ) || str_eq(name, "/dsc/shell/grad") {
        check_fits_ball(args)
    } else {
        true
    }
}

/// Process one decoded command end to end: resolve it, then composite
/// every shaded cell into the grid, in shape order. A failing command
/// is reported and leaves the grid exactly as it was; no failure is
/// fatal to the process.
pub fn apply_command(grid: &mut Grid, name: &str, args: &Vec<Arg>) -> (r: Result<
    (),
    CommandError,
>)
    requires
        old(grid).wf(),
        spec_resolve_fits(name@, args@),
    ensures
        final(grid).wf(),
        ({
            match spec_resolve(name@, args@) {
                SpecResolved::Shape(cells, sh) => r is Ok && final(grid)@ == spec_apply_shape(
                    old(grid)@,
                    cells,
                    sh,
                ),
                SpecResolved::Malformed(k, at) => final(grid)@ == old(grid)@ && (r matches Err(
                    CommandError::MalformedArgument { expected, at: a },
                ) && expected == k && a as int == at),
                SpecResolved::Unknown => final(grid)@ == old(grid)@ && (r matches Err(
                    CommandError::UnknownCommand { name: n, args: a },
                ) && n@ == name@ && a@ == args@),
                SpecResolved::DegenerateAxis => final(grid)@ == old(grid)@ && (r matches Err(e)
                    && e is DegenerateGradientAxis),
            }
        }),
{
    match resolve(name, args) {
        Ok((shape, shader)) => {
            apply_shape(grid, &shape, &shader);
            Ok(())
        },
        Err(e) => Err(e),
    }
}

} // verus!
