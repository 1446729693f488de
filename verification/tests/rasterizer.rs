//! Behavior of the line rasterizer on concrete segments.

use voxelcube::bresenham3d;
use voxelcube::model::Point3;

fn pt(x: i32, y: i32, z: i32) -> Point3 {
    Point3::new(x, y, z)
}

fn max3(a: i32, b: i32, c: i32) -> i32 {
    a.max(b).max(c)
}

/// Length is max(|dx|,|dy|,|dz|) + 1; first element is p, last is q.
fn check_basics(p: Point3, q: Point3) {
    let cells = bresenham3d::line(p, q);
    let expect = max3((q.x - p.x).abs(), (q.y - p.y).abs(), (q.z - p.z).abs()) + 1;
    assert_eq!(cells.len(), expect as usize);
    assert_eq!(cells[0], p);
    assert_eq!(*cells.last().unwrap(), q);
}

#[test]
fn line_length_and_endpoints() {
    let pairs = vec![
        (pt(0, 0, 0), pt(2, 0, 0)),
        (pt(0, 0, 0), pt(4, 2, 0)),
        (pt(1, 2, 3), pt(-5, 9, 4)),
        (pt(3, 3, 3), pt(3, 3, 3)),
        (pt(0, 0, 0), pt(0, 0, -7)),
        (pt(-2, -3, -4), pt(2, 3, 4)),
        (pt(7, 0, 0), pt(0, 7, 7)),
    ];
    for (p, q) in pairs {
        check_basics(p, q);
    }
}

#[test]
fn line_single_point() {
    let cells = bresenham3d::line(pt(5, -6, 7), pt(5, -6, 7));
    assert_eq!(cells, vec![pt(5, -6, 7)]);
}

#[test]
fn line_axis_aligned() {
    assert_eq!(bresenham3d::line(pt(0, 0, 0), pt(3, 0, 0)), vec![
        pt(0, 0, 0),
        pt(1, 0, 0),
        pt(2, 0, 0),
        pt(3, 0, 0),
    ]);
    assert_eq!(bresenham3d::line(pt(0, 0, 0), pt(0, -3, 0)), vec![
        pt(0, 0, 0),
        pt(0, -1, 0),
        pt(0, -2, 0),
        pt(0, -3, 0),
    ]);
    assert_eq!(bresenham3d::line(pt(1, 1, 1), pt(1, 1, 4)), vec![
        pt(1, 1, 1),
        pt(1, 1, 2),
        pt(1, 1, 3),
        pt(1, 1, 4),
    ]);
}

#[test]
fn line_diagonal() {
    assert_eq!(bresenham3d::line(pt(0, 0, 0), pt(3, 3, 3)), vec![
        pt(0, 0, 0),
        pt(1, 1, 1),
        pt(2, 2, 2),
        pt(3, 3, 3),
    ]);
}

#[test]
fn line_error_diffusion_trace() {
    // x drives with delta 4; y accumulates delta 2: steps after
    // iterations 2 and 4.
    assert_eq!(bresenham3d::line(pt(0, 0, 0), pt(4, 2, 0)), vec![
        pt(0, 0, 0),
        pt(1, 0, 0),
        pt(2, 1, 0),
        pt(3, 1, 0),
        pt(4, 2, 0),
    ]);
}

#[test]
fn line_y_drives() {
    assert_eq!(bresenham3d::line(pt(0, 0, 0), pt(1, 3, 0)), vec![
        pt(0, 0, 0),
        pt(0, 1, 0),
        pt(1, 2, 0),
        pt(1, 3, 0),
    ]);
}

#[test]
fn line_z_drives() {
    let cells = bresenham3d::line(pt(0, 0, 0), pt(1, 2, 5));
    assert_eq!(cells.len(), 6);
    assert_eq!(cells[0], pt(0, 0, 0));
    assert_eq!(cells[5], pt(1, 2, 5));
    // the driving z coordinate advances by one per cell
    for (k, c) in cells.iter().enumerate() {
        assert_eq!(c.z, k as i32);
    }
}

#[test]
fn line_reversal_on_tie_free_segment() {
    // an odd driving delta can never tie, so the reversed path is the
    // exact mirror
    let p = pt(0, 0, 0);
    let q = pt(5, 2, 3);
    let fwd = bresenham3d::line(p, q);
    let mut bwd = bresenham3d::line(q, p);
    bwd.reverse();
    assert_eq!(fwd, bwd);
}

#[test]
fn line_reversal_tie_asymmetry() {
    // with an even driving delta the half-step tie breaks toward the
    // start of each walk, so the two directions disagree in the middle
    let p = pt(0, 0, 0);
    let q = pt(4, 2, 0);
    let fwd = bresenham3d::line(p, q);
    let mut bwd = bresenham3d::line(q, p);
    bwd.reverse();
    assert_eq!(fwd[2], pt(2, 1, 0));
    assert_eq!(bwd[2], pt(2, 1, 0));
    assert_ne!(fwd, bwd);
    assert_eq!(fwd[1], pt(1, 0, 0));
    assert_eq!(bwd[1], pt(1, 1, 0));
}

#[test]
fn line_has_no_duplicates() {
    let cells = bresenham3d::line(pt(-3, 7, 2), pt(6, -1, 5));
    for i in 0..cells.len() {
        for j in (i + 1)..cells.len() {
            assert_ne!(cells[i], cells[j]);
        }
    }
}

#[test]
fn line_has_no_gaps() {
    let cells = bresenham3d::line(pt(-3, 7, 2), pt(6, -1, 5));
    for w in cells.windows(2) {
        assert!((w[1].x - w[0].x).abs() <= 1);
        assert!((w[1].y - w[0].y).abs() <= 1);
        assert!((w[1].z - w[0].z).abs() <= 1);
        assert_ne!(w[0], w[1]);
    }
}
