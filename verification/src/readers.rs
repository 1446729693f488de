//! The argument reader: typed extraction from a command's ordered
//! argument list. Each reader consumes exactly the elements it needs
//! and advances a cursor; an absent or wrongly-typed element fails with
//! `MalformedArgument`, naming the kind that was expected and the
//! position where it was expected. Argument errors are surfaced to the
//! caller, never defaulted: a malformed remote command must be heard of.

use vstd::prelude::*;

use crate::model::{Color, Point3, SpecColor, SpecPoint, SpecVector, Vector3};

verus! {

/// One decoded argument of a drawing command, as the transport hands it
/// over: an integer (coordinates, extents, radii) or a fixed-point
/// fraction in units of `1 / COLOR_SCALE` (color channels).
#[derive(Clone, Copy, PartialEq, Eq, Structural, Debug)]
pub enum Arg {
    Int(i32),
    Frac(u32),
}

/// The kind of value a reader expected, named in argument errors.
#[derive(Clone, Copy, PartialEq, Eq, Structural, Debug)]
pub enum ArgKind {
    Integer,
    Fraction,
}

/// Why a command was dropped. Every variant is recovered at the
/// single-command boundary: the grid and the process continue.
#[derive(Debug)]
pub enum CommandError {
    /// An argument was absent or of the wrong type: the kind that was
    /// expected, and the position in the argument list where it was
    /// expected.
    MalformedArgument { expected: ArgKind, at: usize },
    /// No command schema has this name; the raw name and arguments are
    /// carried for diagnostics.
    UnknownCommand { name: String, args: Vec<Arg> },
    /// A gradient command named the zero vector as its axis, which has
    /// no projection; failing fast here keeps undefined colors out of
    /// the grid.
    DegenerateGradientAxis,
}

/// Outcome of reading one typed value at a cursor: the value and the
/// next cursor position, or the kind expected and the position where
/// the read failed.
pub enum Rd<T> {
    Got(T, int),
    Bad(ArgKind, int),
}

/// Read one integer at `i`.
pub open spec fn rd_int(args: Seq<Arg>, i: int) -> Rd<i32> {
    if 0 <= i < args.len() && args[i] is Int {
        Rd::Got(args[i]->Int_0, i + 1)
    } else {
        Rd::Bad(ArgKind::Integer, i)
    }
}

/// Read one fixed-point fraction at `i`.
pub open spec fn rd_frac(args: Seq<Arg>, i: int) -> Rd<u32> {
    if 0 <= i < args.len() && args[i] is Frac {
        Rd::Got(args[i]->Frac_0, i + 1)
    } else {
        Rd::Bad(ArgKind::Fraction, i)
    }
}

/// Read three consecutive integers at `i` as a point.
pub open spec fn rd_point(args: Seq<Arg>, i: int) -> Rd<SpecPoint> {
    match rd_int(args, i) {
        Rd::Got(x, i1) => match rd_int(args, i1) {
            Rd::Got(y, i2) => match rd_int(args, i2) {
                Rd::Got(z, i3) => Rd::Got(
                    SpecPoint { x: x as int, y: y as int, z: z as int },
                    i3,
                ),
                Rd::Bad(k, at) => Rd::Bad(k, at),
            },
            Rd::Bad(k, at) => Rd::Bad(k, at),
        },
        Rd::Bad(k, at) => Rd::Bad(k, at),
    }
}

/// Read three consecutive integers at `i` as a displacement vector.
pub open spec fn rd_vector(args: Seq<Arg>, i: int) -> Rd<SpecVector> {
    match rd_int(args, i) {
        Rd::Got(x, i1) => match rd_int(args, i1) {
            Rd::Got(y, i2) => match rd_int(args, i2) {
                Rd::Got(z, i3) => Rd::Got(
                    SpecVector { x: x as int, y: y as int, z: z as int },
                    i3,
                ),
                Rd::Bad(k, at) => Rd::Bad(k, at),
            },
            Rd::Bad(k, at) => Rd::Bad(k, at),
        },
        Rd::Bad(k, at) => Rd::Bad(k, at),
    }
}

/// Read four consecutive fractions at `i` as a color.
pub open spec fn rd_color(args: Seq<Arg>, i: int) -> Rd<SpecColor> {
    match rd_frac(args, i) {
        Rd::Got(r, i1) => match rd_frac(args, i1) {
            Rd::Got(g, i2) => match rd_frac(args, i2) {
                Rd::Got(b, i3) => match rd_frac(args, i3) {
                    Rd::Got(a, i4) => Rd::Got(
                        SpecColor { r: r as int, g: g as int, b: b as int, a: a as int },
                        i4,
                    ),
                    Rd::Bad(k, at) => Rd::Bad(k, at),
                },
                Rd::Bad(k, at) => Rd::Bad(k, at),
            },
            Rd::Bad(k, at) => Rd::Bad(k, at),
        },
        Rd::Bad(k, at) => Rd::Bad(k, at),
    }
}

/// Extract one integer argument and advance the cursor past it; on
/// failure the cursor stays at the offending position.
pub fn read_int(args: &Vec<Arg>, pos: &mut usize) -> (r: Result<i32, CommandError>)
    ensures
        ({
            match rd_int(args@, *old(pos) as int) {
                Rd::Got(v, next) => r == Ok::<i32, CommandError>(v) && *final(pos) == next,
                Rd::Bad(k, at) => (r matches Err(CommandError::MalformedArgument {
                    expected,
                    at: a,
                }) && expected == k && a as int == at) && *final(pos) as int == at,
            }
        }),
{
    if *pos < args.len() {
        match args[*pos] {
            Arg::Int(v) => {
                *pos = *pos + 1;
                return Ok(v);
            },
            _ => {},
        }
    }
    Err(CommandError::MalformedArgument { expected: ArgKind::Integer, at: *pos })
}

/// Extract one fixed-point fraction argument and advance the cursor; on
/// failure the cursor stays at the offending position.
pub fn frac(args: &Vec<Arg>, pos: &mut usize) -> (r: Result<u32, CommandError>)
    ensures
        ({
            match rd_frac(args@, *old(pos) as int) {
                Rd::Got(v, next) => r == Ok::<u32, CommandError>(v) && *final(pos) == next,
                Rd::Bad(k, at) => (r matches Err(CommandError::MalformedArgument {
                    expected,
                    at: a,
                }) && expected == k && a as int == at) && *final(pos) as int == at,
            }
        }),
{
    if *pos < args.len() {
        match args[*pos] {
            Arg::Frac(v) => {
                *pos = *pos + 1;
                return Ok(v);
            },
            _ => {},
        }
    }
    Err(CommandError::MalformedArgument { expected: ArgKind::Fraction, at: *pos })
}

/// Extract a point: three consecutive integer arguments.
pub fn dsc_point_3(args: &Vec<Arg>, pos: &mut usize) -> (r: Result<Point3, CommandError>)
    ensures
        ({
            match rd_point(args@, *old(pos) as int) {
                Rd::Got(p, next) => (r matches Ok(pt) && pt@ == p) && *final(pos) == next,
                Rd::Bad(k, at) => (r matches Err(CommandError::MalformedArgument {
                    expected,
                    at: a,
                }) && expected == k && a as int == at) && *final(pos) as int == at,
            }
        }),
{
    let x = match read_int(args, pos) {
        Ok(v) => v,
        Err(e) => {
            return Err(e);
        },
    };
    let y = match read_int(args, pos) {
        Ok(v) => v,
        Err(e) => {
            return Err(e);
        },
    };
    let z = match read_int(args, pos) {
        Ok(v) => v,
        Err(e) => {
            return Err(e);
        },
    };
    Ok(Point3 { x, y, z })
}

/// Extract a displacement vector: three consecutive integer arguments.
pub fn dsc_vector_3(args: &Vec<Arg>, pos: &mut usize) -> (r: Result<Vector3, CommandError>)
    ensures
        ({
            match rd_vector(args@, *old(pos) as int) {
                Rd::Got(v, next) => (r matches Ok(vc) && vc@ == v) && *final(pos) == next,
                Rd::Bad(k, at) => (r matches Err(CommandError::MalformedArgument {
                    expected,
                    at: a,
                }) && expected == k && a as int == at) && *final(pos) as int == at,
            }
        }),
{
    let x = match read_int(args, pos) {
        Ok(v) => v,
        Err(e) => {
            return Err(e);
        },
    };
    let y = match read_int(args, pos) {
        Ok(v) => v,
        Err(e) => {
            return Err(e);
        },
    };
    let z = match read_int(args, pos) {
        Ok(v) => v,
        Err(e) => {
            return Err(e);
        },
    };
    Ok(Vector3 { x, y, z })
}

/// Extract a color: four consecutive fraction arguments, red, green,
/// blue, alpha.
pub fn lin_srgba(args: &Vec<Arg>, pos: &mut usize) -> (r: Result<Color, CommandError>)
    ensures
        ({
            match rd_color(args@, *old(pos) as int) {
                Rd::Got(c, next) => (r matches Ok(clr) && clr@ == c) && *final(pos) == next,
                Rd::Bad(k, at) => (r matches Err(CommandError::MalformedArgument {
                    expected,
                    at: a,
                }) && expected == k && a as int == at) && *final(pos) as int == at,
            }
        }),
{
    let red = match frac(args, pos) {
        Ok(v) => v,
        Err(e) => {
            return Err(e);
        },
    };
    let green = match frac(args, pos) {
        Ok(v) => v,
        Err(e) => {
            return Err(e);
        },
    };
    let blue = match frac(args, pos) {
        Ok(v) => v,
        Err(e) => {
            return Err(e);
        },
    };
    let alpha = match frac(args, pos) {
        Ok(v) => v,
        Err(e) => {
            return Err(e);
        },
    };
    Ok(Color { r: red, g: green, b: blue, a: alpha })
}

} // verus!
