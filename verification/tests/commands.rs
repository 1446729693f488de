//! Behavior of the argument readers and the command resolver.

use voxelcube::model::{Color, Point3, Vector3, COLOR_SCALE};
use voxelcube::readers::{
    dsc_point_3, dsc_vector_3, lin_srgba, read_int, Arg, ArgKind, CommandError,
};
use voxelcube::resolve::{command_fits, resolve};
use voxelcube::shader::Shader;

fn pt(x: i32, y: i32, z: i32) -> Point3 {
    Point3::new(x, y, z)
}

fn push_point(args: &mut Vec<Arg>, x: i32, y: i32, z: i32) {
    args.push(Arg::Int(x));
    args.push(Arg::Int(y));
    args.push(Arg::Int(z));
}

fn push_color(args: &mut Vec<Arg>, r: u32, g: u32, b: u32, a: u32) {
    args.push(Arg::Frac(r));
    args.push(Arg::Frac(g));
    args.push(Arg::Frac(b));
    args.push(Arg::Frac(a));
}

#[test]
fn read_int_advances_cursor() {
    let args = vec![Arg::Int(7), Arg::Int(-3)];
    let mut pos = 0;
    assert_eq!(read_int(&args, &mut pos).unwrap(), 7);
    assert_eq!(pos, 1);
    assert_eq!(read_int(&args, &mut pos).unwrap(), -3);
    assert_eq!(pos, 2);
}

#[test]
fn read_int_rejects_missing_argument() {
    let args = vec![Arg::Int(7)];
    let mut pos = 1;
    let err = read_int(&args, &mut pos).unwrap_err();
    assert!(matches!(
        err,
        CommandError::MalformedArgument { expected: ArgKind::Integer, at: 1 }
    ));
    assert_eq!(pos, 1);
}

#[test]
fn read_int_rejects_wrong_kind() {
    let args = vec![Arg::Frac(500)];
    let mut pos = 0;
    let err = read_int(&args, &mut pos).unwrap_err();
    assert!(matches!(
        err,
        CommandError::MalformedArgument { expected: ArgKind::Integer, at: 0 }
    ));
}

#[test]
fn point_reader_consumes_three_integers() {
    let args = vec![Arg::Int(1), Arg::Int(2), Arg::Int(3), Arg::Frac(9)];
    let mut pos = 0;
    assert_eq!(dsc_point_3(&args, &mut pos).unwrap(), pt(1, 2, 3));
    assert_eq!(pos, 3);
}

#[test]
fn point_reader_names_failing_position() {
    let args = vec![Arg::Int(1), Arg::Frac(2), Arg::Int(3)];
    let mut pos = 0;
    let err = dsc_point_3(&args, &mut pos).unwrap_err();
    assert!(matches!(
        err,
        CommandError::MalformedArgument { expected: ArgKind::Integer, at: 1 }
    ));
}

#[test]
fn vector_reader_consumes_three_integers() {
    let args = vec![Arg::Int(-1), Arg::Int(0), Arg::Int(4)];
    let mut pos = 0;
    assert_eq!(dsc_vector_3(&args, &mut pos).unwrap(), Vector3::new(-1, 0, 4));
    assert_eq!(pos, 3);
}

#[test]
fn color_reader_consumes_four_fractions() {
    let args = vec![Arg::Frac(1000), Arg::Frac(0), Arg::Frac(250), Arg::Frac(500)];
    let mut pos = 0;
    assert_eq!(
        lin_srgba(&args, &mut pos).unwrap(),
        Color::new(1000, 0, 250, 500)
    );
    assert_eq!(pos, 4);
}

#[test]
fn color_reader_rejects_integer_channel() {
    let args = vec![Arg::Frac(1000), Arg::Int(0)];
    let mut pos = 0;
    let err = lin_srgba(&args, &mut pos).unwrap_err();
    assert!(matches!(
        err,
        CommandError::MalformedArgument { expected: ArgKind::Fraction, at: 1 }
    ));
}

#[test]
fn resolve_line_solid_red() {
    let mut args = Vec::new();
    push_point(&mut args, 0, 0, 0);
    push_point(&mut args, 2, 0, 0);
    push_color(&mut args, COLOR_SCALE, 0, 0, COLOR_SCALE);
    let (shape, shader) = resolve("/dsc/line", &args).unwrap();
    assert_eq!(shape, vec![pt(0, 0, 0), pt(1, 0, 0), pt(2, 0, 0)]);
    let red = Color::new(COLOR_SCALE, 0, 0, COLOR_SCALE);
    assert_eq!(shader, Shader::Constant(red));
    assert_eq!(shader.evaluate(pt(1, 0, 0)), red);
}

#[test]
fn resolve_voxel_single_cell() {
    let mut args = Vec::new();
    push_point(&mut args, 1, 1, 1);
    push_color(&mut args, 0, COLOR_SCALE, 0, COLOR_SCALE);
    let (shape, shader) = resolve("/dsc/voxel", &args).unwrap();
    assert_eq!(shape, vec![pt(1, 1, 1)]);
    assert_eq!(
        shader.evaluate(pt(1, 1, 1)),
        Color::new(0, COLOR_SCALE, 0, COLOR_SCALE)
    );
}

#[test]
fn resolve_unknown_command() {
    let args: Vec<Arg> = Vec::new();
    let err = resolve("/unknown/cmd", &args).unwrap_err();
    match err {
        CommandError::UnknownCommand { name, args: carried } => {
            assert_eq!(name, "/unknown/cmd");
            assert!(carried.is_empty());
        },
        other => panic!("expected UnknownCommand, got {:?}", other),
    }
}

#[test]
fn resolve_sphere_command() {
    let mut args = Vec::new();
    push_point(&mut args, 4, 4, 4);
    args.push(Arg::Int(2));
    push_color(&mut args, 0, 0, COLOR_SCALE, COLOR_SCALE);
    let (shape, _) = resolve("/dsc/sphere", &args).unwrap();
    assert_eq!(shape.len(), 30);
    assert!(shape.contains(&pt(4, 4, 4)));
    assert!(shape.contains(&pt(2, 4, 4)));
    assert!(!shape.contains(&pt(2, 2, 2)));
}

#[test]
fn resolve_fill_solid() {
    let mut args = Vec::new();
    push_color(&mut args, 100, 200, 300, 400);
    let (shape, shader) = resolve("/fill/solid", &args).unwrap();
    assert_eq!(shape.len(), 512);
    assert_eq!(shader.evaluate(pt(0, 0, 0)), Color::new(100, 200, 300, 400));
}

#[test]
fn resolve_line_gradient() {
    let mut args = Vec::new();
    push_point(&mut args, 0, 0, 0);
    push_point(&mut args, 4, 0, 0);
    push_color(&mut args, COLOR_SCALE, 0, 0, COLOR_SCALE);
    push_color(&mut args, 0, 0, COLOR_SCALE, COLOR_SCALE);
    push_point(&mut args, 0, 0, 0);
    push_point(&mut args, 4, 0, 0);
    let (shape, shader) = resolve("/dsc/line/grad", &args).unwrap();
    assert_eq!(shape.len(), 5);
    assert_eq!(
        shader.evaluate(pt(0, 0, 0)),
        Color::new(COLOR_SCALE, 0, 0, COLOR_SCALE)
    );
    assert_eq!(
        shader.evaluate(pt(4, 0, 0)),
        Color::new(0, 0, COLOR_SCALE, COLOR_SCALE)
    );
    assert_eq!(
        shader.evaluate(pt(2, 0, 0)),
        Color::new(COLOR_SCALE / 2, 0, COLOR_SCALE / 2, COLOR_SCALE)
    );
}

#[test]
fn resolve_rejects_zero_gradient_axis() {
    let mut args = Vec::new();
    push_point(&mut args, 0, 0, 0);
    push_point(&mut args, 4, 0, 0);
    push_color(&mut args, COLOR_SCALE, 0, 0, COLOR_SCALE);
    push_color(&mut args, 0, 0, COLOR_SCALE, COLOR_SCALE);
    push_point(&mut args, 0, 0, 0);
    push_point(&mut args, 0, 0, 0);
    let err = resolve("/dsc/line/grad", &args).unwrap_err();
    assert!(matches!(err, CommandError::DegenerateGradientAxis));
}

#[test]
fn resolve_reports_malformed_argument() {
    // the color of a voxel command starts at position 3 but holds an
    // integer there
    let mut args = Vec::new();
    push_point(&mut args, 1, 1, 1);
    args.push(Arg::Int(5));
    let err = resolve("/dsc/voxel", &args).unwrap_err();
    assert!(matches!(
        err,
        CommandError::MalformedArgument { expected: ArgKind::Fraction, at: 3 }
    ));
}

#[test]
fn resolve_reports_missing_geometry() {
    let args = vec![Arg::Int(1)];
    let err = resolve("/dsc/plane", &args).unwrap_err();
    assert!(matches!(
        err,
        CommandError::MalformedArgument { expected: ArgKind::Integer, at: 1 }
    ));
}

#[test]
fn resolve_cuboid_command() {
    let mut args = Vec::new();
    push_point(&mut args, 0, 0, 0);
    push_point(&mut args, 1, 0, 0);
    push_point(&mut args, 0, 1, 0);
    push_point(&mut args, 0, 0, 1);
    push_color(&mut args, 500, 500, 500, 1000);
    let (shape, _) = resolve("/dsc/cuboid", &args).unwrap();
    assert_eq!(shape.len(), 8);
}

#[test]
fn resolve_frame_command() {
    let mut args = Vec::new();
    push_point(&mut args, 0, 0, 0);
    push_point(&mut args, 2, 0, 0);
    push_point(&mut args, 0, 2, 0);
    push_color(&mut args, 0, 1000, 0, 1000);
    let (shape, _) = resolve("/dsc/frame", &args).unwrap();
    assert_eq!(shape.len(), 12);
    assert!(shape.contains(&pt(2, 2, 0)));
}

#[test]
fn resolve_plane_gradient() {
    let mut args = Vec::new();
    push_point(&mut args, 0, 0, 0);
    push_point(&mut args, 2, 0, 0);
    push_point(&mut args, 0, 2, 0);
    push_color(&mut args, 0, 0, 0, 1000);
    push_color(&mut args, 1000, 1000, 1000, 1000);
    push_point(&mut args, 0, 0, 0);
    push_point(&mut args, 2, 0, 0);
    let (shape, shader) = resolve("/dsc/plane/grad", &args).unwrap();
    assert_eq!(shape.len(), 9);
    assert_eq!(shader.evaluate(pt(0, 0, 0)), Color::new(0, 0, 0, 1000));
    assert_eq!(
        shader.evaluate(pt(1, 5, 5)),
        Color::new(500, 500, 500, 1000)
    );
}

#[test]
fn resolve_frame_gradient() {
    let mut args = Vec::new();
    push_point(&mut args, 0, 0, 0);
    push_point(&mut args, 2, 0, 0);
    push_point(&mut args, 0, 2, 0);
    push_color(&mut args, 1000, 0, 0, 1000);
    push_color(&mut args, 0, 1000, 0, 1000);
    push_point(&mut args, 0, 0, 0);
    push_point(&mut args, 0, 2, 0);
    let (shape, shader) = resolve("/dsc/frame/grad", &args).unwrap();
    assert_eq!(shape.len(), 12);
    assert_eq!(shader.evaluate(pt(5, 0, 0)), Color::new(1000, 0, 0, 1000));
    assert_eq!(shader.evaluate(pt(5, 2, 0)), Color::new(0, 1000, 0, 1000));
}

#[test]
fn resolve_cuboid_gradient() {
    let mut args = Vec::new();
    push_point(&mut args, 0, 0, 0);
    push_point(&mut args, 1, 0, 0);
    push_point(&mut args, 0, 1, 0);
    push_point(&mut args, 0, 0, 1);
    push_color(&mut args, 0, 0, 0, 0);
    push_color(&mut args, 1000, 1000, 1000, 1000);
    push_point(&mut args, 0, 0, 0);
    push_point(&mut args, 0, 0, 1);
    let (shape, shader) = resolve("/dsc/cuboid/grad", &args).unwrap();
    assert_eq!(shape.len(), 8);
    assert_eq!(shader.evaluate(pt(0, 0, 1)), Color::new(1000, 1000, 1000, 1000));
}

#[test]
fn resolve_shell_command() {
    let mut args = Vec::new();
    push_point(&mut args, 4, 4, 4);
    args.push(Arg::Int(2));
    push_color(&mut args, 1000, 1000, 0, 1000);
    let (shape, _) = resolve("/dsc/shell", &args).unwrap();
    assert!(!shape.contains(&pt(4, 4, 4)));
    assert!(shape.contains(&pt(2, 4, 4)));
}

#[test]
fn resolve_shell_gradient() {
    let mut args = Vec::new();
    push_point(&mut args, 4, 4, 4);
    args.push(Arg::Int(2));
    push_color(&mut args, 1000, 0, 0, 1000);
    push_color(&mut args, 0, 0, 1000, 1000);
    push_point(&mut args, 2, 4, 4);
    push_point(&mut args, 4, 0, 0);
    let (shape, shader) = resolve("/dsc/shell/grad", &args).unwrap();
    assert!(shape.contains(&pt(2, 4, 4)));
    assert_eq!(shader.evaluate(pt(2, 4, 4)), Color::new(1000, 0, 0, 1000));
}

#[test]
fn resolve_sphere_gradient() {
    let mut args = Vec::new();
    push_point(&mut args, 4, 4, 4);
    args.push(Arg::Int(1));
    push_color(&mut args, 1000, 0, 0, 1000);
    push_color(&mut args, 0, 1000, 0, 1000);
    push_point(&mut args, 3, 4, 4);
    push_point(&mut args, 2, 0, 0);
    let (shape, shader) = resolve("/dsc/sphere/grad", &args).unwrap();
    assert!(shape.contains(&pt(4, 4, 4)));
    assert_eq!(shader.evaluate(pt(4, 4, 4)), Color::new(500, 500, 0, 1000));
}

#[test]
fn resolve_fill_gradient() {
    let mut args = Vec::new();
    push_color(&mut args, 0, 0, 0, 1000);
    push_color(&mut args, 1000, 1000, 1000, 1000);
    push_point(&mut args, 0, 0, 0);
    push_point(&mut args, 0, 0, 7);
    let (shape, shader) = resolve("/fill/solid/grad", &args).unwrap();
    assert_eq!(shape.len(), 512);
    assert_eq!(shader.evaluate(pt(3, 3, 0)), Color::new(0, 0, 0, 1000));
    assert_eq!(shader.evaluate(pt(3, 3, 7)), Color::new(1000, 1000, 1000, 1000));
}

#[test]
fn command_fits_accepts_small_geometry() {
    let mut args = Vec::new();
    push_point(&mut args, 0, 0, 0);
    push_point(&mut args, 2, 0, 0);
    push_color(&mut args, 1000, 0, 0, 1000);
    assert!(command_fits("/dsc/line", &args));
    assert!(command_fits("/unknown/cmd", &args));
}

#[test]
fn command_fits_rejects_overflowing_geometry() {
    let mut args = Vec::new();
    push_point(&mut args, i32::MAX, 0, 0);
    push_point(&mut args, 1, 0, 0);
    push_color(&mut args, 1000, 0, 0, 1000);
    assert!(!command_fits("/dsc/line", &args));
    // a sphere whose bounding box leaves the representable range
    let mut sargs = Vec::new();
    push_point(&mut sargs, i32::MAX, 0, 0);
    sargs.push(Arg::Int(1));
    push_color(&mut sargs, 1000, 0, 0, 1000);
    assert!(!command_fits("/dsc/sphere", &sargs));
}
