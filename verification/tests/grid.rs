//! Behavior of the grid compositor: clip bounds policy, replace write
//! policy, and whole-command application.

use voxelcube::model::{Color, Point3, COLOR_SCALE};
use voxelcube::paint::{apply_shape, paint, Grid};
use voxelcube::readers::{Arg, CommandError};
use voxelcube::resolve::apply_command;
use voxelcube::shader::Shader;

fn pt(x: i32, y: i32, z: i32) -> Point3 {
    Point3::new(x, y, z)
}

fn black() -> Color {
    Color::new(0, 0, 0, COLOR_SCALE)
}

fn red() -> Color {
    Color::new(COLOR_SCALE, 0, 0, COLOR_SCALE)
}

fn snapshot(g: &Grid) -> Vec<Color> {
    let mut out = Vec::new();
    for x in 0..8 {
        for y in 0..8 {
            for z in 0..8 {
                out.push(g.get(x, y, z));
            }
        }
    }
    out
}

fn push_point(args: &mut Vec<Arg>, x: i32, y: i32, z: i32) {
    args.push(Arg::Int(x));
    args.push(Arg::Int(y));
    args.push(Arg::Int(z));
}

fn push_color(args: &mut Vec<Arg>, r: u32, g: u32, b: u32, a: u32) {
    args.push(Arg::Frac(r));
    args.push(Arg::Frac(g));
    args.push(Arg::Frac(b));
    args.push(Arg::Frac(a));
}

#[test]
fn new_grid_is_uniform() {
    let g = Grid::new(black());
    for x in 0..8 {
        for y in 0..8 {
            for z in 0..8 {
                assert_eq!(g.get(x, y, z), black());
            }
        }
    }
}

#[test]
fn rainbow_grid_scales_coordinates() {
    let g = Grid::rainbow();
    assert_eq!(g.get(0, 0, 0), Color::new(0, 0, 0, COLOR_SCALE));
    assert_eq!(g.get(4, 2, 7), Color::new(500, 250, 875, COLOR_SCALE));
    assert_eq!(g.get(7, 7, 7), Color::new(875, 875, 875, COLOR_SCALE));
}

#[test]
fn paint_replaces_cell_color() {
    let mut g = Grid::new(black());
    paint(&mut g, pt(1, 2, 3), red());
    assert_eq!(g.get(1, 2, 3), red());
    // a later write wins entirely
    paint(&mut g, pt(1, 2, 3), Color::new(0, COLOR_SCALE, 0, 200));
    assert_eq!(g.get(1, 2, 3), Color::new(0, COLOR_SCALE, 0, 200));
}

#[test]
fn paint_clips_out_of_bounds_silently() {
    let mut g = Grid::new(black());
    let before = snapshot(&g);
    paint(&mut g, pt(8, 0, 0), red());
    paint(&mut g, pt(-1, 3, 3), red());
    paint(&mut g, pt(0, 0, 100), red());
    assert_eq!(snapshot(&g), before);
}

#[test]
fn shape_with_out_of_bounds_cells_clips_only_those() {
    // a line running off the edge of the grid: cells 6 and 7 are
    // painted, 8 and 9 are clipped, and nothing else changes
    let mut g = Grid::new(black());
    let shape = vec![pt(6, 0, 0), pt(7, 0, 0), pt(8, 0, 0), pt(9, 0, 0)];
    apply_shape(&mut g, &shape, &Shader::Constant(red()));
    assert_eq!(g.get(6, 0, 0), red());
    assert_eq!(g.get(7, 0, 0), red());
    // the neighbors of the clipped cells are untouched
    assert_eq!(g.get(7, 1, 0), black());
    assert_eq!(g.get(7, 0, 1), black());
    assert_eq!(g.get(5, 0, 0), black());
}

#[test]
fn repeated_cells_last_write_wins() {
    let mut g = Grid::new(black());
    let shape = vec![pt(1, 1, 1), pt(2, 2, 2), pt(1, 1, 1)];
    // constant shader: rewriting is invisible; check via two shapes
    apply_shape(&mut g, &shape, &Shader::Constant(red()));
    assert_eq!(g.get(1, 1, 1), red());
    assert_eq!(g.get(2, 2, 2), red());
}

#[test]
fn apply_command_paints_voxel_and_is_idempotent() {
    let mut args = Vec::new();
    push_point(&mut args, 1, 1, 1);
    push_color(&mut args, 0, COLOR_SCALE, 0, COLOR_SCALE);

    let mut g = Grid::new(black());
    apply_command(&mut g, "/dsc/voxel", &args).unwrap();
    assert_eq!(g.get(1, 1, 1), Color::new(0, COLOR_SCALE, 0, COLOR_SCALE));
    let once = snapshot(&g);

    // applying the same command again changes nothing: replace policy
    apply_command(&mut g, "/dsc/voxel", &args).unwrap();
    assert_eq!(snapshot(&g), once);
}

#[test]
fn apply_command_unknown_leaves_grid_unchanged() {
    let mut g = Grid::rainbow();
    let before = snapshot(&g);
    let err = apply_command(&mut g, "/unknown/cmd", &Vec::new()).unwrap_err();
    assert!(matches!(err, CommandError::UnknownCommand { .. }));
    assert_eq!(snapshot(&g), before);
}

#[test]
fn apply_command_malformed_leaves_grid_unchanged() {
    let mut g = Grid::rainbow();
    let before = snapshot(&g);
    let args = vec![Arg::Int(1)];
    let err = apply_command(&mut g, "/dsc/voxel", &args).unwrap_err();
    assert!(matches!(err, CommandError::MalformedArgument { .. }));
    assert_eq!(snapshot(&g), before);
}

#[test]
fn apply_command_gradient_line() {
    let mut args = Vec::new();
    push_point(&mut args, 0, 0, 0);
    push_point(&mut args, 4, 0, 0);
    push_color(&mut args, COLOR_SCALE, 0, 0, COLOR_SCALE);
    push_color(&mut args, 0, 0, COLOR_SCALE, COLOR_SCALE);
    push_point(&mut args, 0, 0, 0);
    push_point(&mut args, 4, 0, 0);

    let mut g = Grid::new(black());
    apply_command(&mut g, "/dsc/line/grad", &args).unwrap();
    assert_eq!(g.get(0, 0, 0), Color::new(COLOR_SCALE, 0, 0, COLOR_SCALE));
    assert_eq!(
        g.get(2, 0, 0),
        Color::new(COLOR_SCALE / 2, 0, COLOR_SCALE / 2, COLOR_SCALE)
    );
    assert_eq!(g.get(4, 0, 0), Color::new(0, 0, COLOR_SCALE, COLOR_SCALE));
    // off the line nothing changed
    assert_eq!(g.get(0, 1, 0), black());
}

#[test]
fn apply_command_fill_solid_covers_grid() {
    let mut args = Vec::new();
    push_color(&mut args, 250, 250, 250, 1000);
    let mut g = Grid::rainbow();
    apply_command(&mut g, "/fill/solid", &args).unwrap();
    for x in 0..8 {
        for y in 0..8 {
            for z in 0..8 {
                assert_eq!(g.get(x, y, z), Color::new(250, 250, 250, 1000));
            }
        }
    }
}
