//! Behavior of constant and gradient shaders.

use voxelcube::model::{Color, Point3, Vector3, COLOR_SCALE};
use voxelcube::shader::Shader;

fn pt(x: i32, y: i32, z: i32) -> Point3 {
    Point3::new(x, y, z)
}

fn vc(x: i32, y: i32, z: i32) -> Vector3 {
    Vector3::new(x, y, z)
}

fn red() -> Color {
    Color::new(COLOR_SCALE, 0, 0, COLOR_SCALE)
}

fn blue() -> Color {
    Color::new(0, 0, COLOR_SCALE, COLOR_SCALE)
}

fn gradient() -> Shader {
    Shader::LinearGradient {
        color1: red(),
        color2: blue(),
        anchor: pt(0, 0, 0),
        axis: vc(4, 0, 0),
    }
}

#[test]
fn constant_shader_ignores_cell() {
    let sh = Shader::Constant(red());
    assert_eq!(sh.evaluate(pt(0, 0, 0)), red());
    assert_eq!(sh.evaluate(pt(-9, 100, 3)), red());
}

#[test]
fn gradient_at_start_is_first_color() {
    let sh = gradient();
    assert_eq!(sh.evaluate(pt(0, 0, 0)), red());
    // any cell projecting onto the anchor plane also gets the first color
    assert_eq!(sh.evaluate(pt(0, 5, -3)), red());
}

#[test]
fn gradient_at_end_is_second_color() {
    let sh = gradient();
    assert_eq!(sh.evaluate(pt(4, 0, 0)), blue());
    assert_eq!(sh.evaluate(pt(4, -2, 9)), blue());
}

#[test]
fn gradient_midpoint_mixes_evenly() {
    let sh = gradient();
    let mid = sh.evaluate(pt(2, 0, 0));
    assert_eq!(mid, Color::new(COLOR_SCALE / 2, 0, COLOR_SCALE / 2, COLOR_SCALE));
}

#[test]
fn gradient_quarter_point() {
    let sh = gradient();
    let c = sh.evaluate(pt(1, 0, 0));
    assert_eq!(c, Color::new(750, 0, 250, COLOR_SCALE));
}

#[test]
fn gradient_clamps_outside_stops() {
    let sh = gradient();
    assert_eq!(sh.evaluate(pt(-3, 0, 0)), red());
    assert_eq!(sh.evaluate(pt(9, 0, 0)), blue());
}

#[test]
fn gradient_projects_along_skew_axis() {
    let sh = Shader::LinearGradient {
        color1: Color::new(0, 0, 0, 0),
        color2: Color::new(1000, 1000, 1000, 1000),
        anchor: pt(1, 1, 1),
        axis: vc(1, 1, 0),
    };
    // (2,2,1) projects to t = 2/2 = 1: the far stop
    assert_eq!(sh.evaluate(pt(2, 2, 1)), Color::new(1000, 1000, 1000, 1000));
    // (2,1,1) projects to t = 1/2
    assert_eq!(sh.evaluate(pt(2, 1, 1)), Color::new(500, 500, 500, 500));
}
