//! Behavior of the composite shape builders.

use voxelcube::geometry::{
    all_cells, discrete_cuboid, discrete_frame, discrete_line, discrete_plane, discrete_shell,
    discrete_sphere,
};
use voxelcube::model::{Point3, Vector3};

fn pt(x: i32, y: i32, z: i32) -> Point3 {
    Point3::new(x, y, z)
}

fn vc(x: i32, y: i32, z: i32) -> Vector3 {
    Vector3::new(x, y, z)
}

#[test]
fn discrete_line_is_rasterized_segment() {
    assert_eq!(discrete_line(pt(0, 0, 0), vc(2, 0, 0)), vec![
        pt(0, 0, 0),
        pt(1, 0, 0),
        pt(2, 0, 0),
    ]);
}

#[test]
fn plane_cell_count_is_product_of_edges() {
    // a 3x4 axis-aligned sheet: 3 rows of 4 cells
    let cells = discrete_plane(pt(0, 0, 0), vc(2, 0, 0), vc(0, 3, 0));
    assert_eq!(cells.len(), 3 * 4);
    // rows come in order, each row a line along v
    assert_eq!(cells[0], pt(0, 0, 0));
    assert_eq!(cells[3], pt(0, 3, 0));
    assert_eq!(cells[4], pt(1, 0, 0));
    assert_eq!(cells[11], pt(2, 3, 0));
}

#[test]
fn frame_is_four_edges_in_order() {
    let cells = discrete_frame(pt(0, 0, 0), vc(2, 0, 0), vc(0, 2, 0));
    // four edges of three cells each, concatenated
    assert_eq!(cells.len(), 12);
    let corners = [pt(0, 0, 0), pt(2, 0, 0), pt(0, 2, 0), pt(2, 2, 0)];
    for c in corners.iter() {
        assert!(cells.contains(c), "frame misses corner {:?}", c);
    }
}

#[test]
fn frame_contains_corners_of_skewed_parallelogram() {
    let p = pt(1, 1, 1);
    let u = vc(3, 1, 0);
    let v = vc(-1, 2, 2);
    let cells = discrete_frame(p, u, v);
    let corners = [pt(1, 1, 1), pt(4, 2, 1), pt(0, 3, 3), pt(3, 4, 3)];
    for c in corners.iter() {
        assert!(cells.contains(c), "frame misses corner {:?}", c);
    }
}

#[test]
fn cuboid_cell_count() {
    let cells = discrete_cuboid(pt(0, 0, 0), vc(1, 0, 0), vc(0, 2, 0), vc(0, 0, 3));
    assert_eq!(cells.len(), 2 * 3 * 4);
    assert_eq!(cells[0], pt(0, 0, 0));
    assert_eq!(*cells.last().unwrap(), pt(1, 2, 3));
}

#[test]
fn sphere_radius_two_membership() {
    let center = pt(4, 4, 4);
    let cells = discrete_sphere(center, 2);
    // direct re-enumeration of the bounding box with the same exact
    // membership rule: distance at most the radius
    let mut expected = Vec::new();
    for i in 2..6 {
        for j in 2..6 {
            for k in 2..6 {
                let d2 = (i - 4) * (i - 4) + (j - 4) * (j - 4) + (k - 4) * (k - 4);
                let dist = (d2 as f64).sqrt();
                if dist <= 2.0 {
                    expected.push(pt(i, j, k));
                }
            }
        }
    }
    assert_eq!(cells, expected);
    // the count is what the distance rule demands inside the half-open
    // bounding box [c - r, c + r): the full 33-cell ball of radius 2
    // minus its three cells at +2, which the box excludes
    assert_eq!(cells.len(), 30);
}

#[test]
fn sphere_nonpositive_radius_is_empty() {
    assert!(discrete_sphere(pt(0, 0, 0), 0).is_empty());
    assert!(discrete_sphere(pt(3, 3, 3), -2).is_empty());
}

#[test]
fn shell_radius_two_is_sphere_minus_interior() {
    let center = pt(4, 4, 4);
    let shell = discrete_shell(center, 2);
    let mut expected = Vec::new();
    for i in 2..6 {
        for j in 2..6 {
            for k in 2..6 {
                let d2 = (i - 4) * (i - 4) + (j - 4) * (j - 4) + (k - 4) * (k - 4);
                let dist = (d2 as f64).sqrt();
                if (dist - 2.0).abs() <= 0.5 {
                    expected.push(pt(i, j, k));
                }
            }
        }
    }
    assert_eq!(shell, expected);
    // the interior (center and its direct neighbours) is absent, the
    // rim inside the half-open bounding box is present
    assert!(!shell.contains(&center));
    assert!(shell.contains(&pt(2, 4, 4)));
    assert!(!shell.contains(&pt(6, 4, 4)));
}

#[test]
fn all_cells_covers_grid_in_order() {
    let cells = all_cells();
    assert_eq!(cells.len(), 512);
    assert_eq!(cells[0], pt(0, 0, 0));
    assert_eq!(cells[1], pt(0, 0, 1));
    assert_eq!(cells[8], pt(0, 1, 0));
    assert_eq!(cells[64], pt(1, 0, 0));
    assert_eq!(*cells.last().unwrap(), pt(7, 7, 7));
    for (n, c) in cells.iter().enumerate() {
        let n = n as i32;
        assert_eq!(*c, pt(n / 64, (n / 8) % 8, n % 8));
    }
}
