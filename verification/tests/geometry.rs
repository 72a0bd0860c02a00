//! Tests of the triangular-grid geometry: orientation parity, cartesian
//! centers and vertices, containment, and the shape boundary.

use trifarm::model::{Shape, TriPos};
use trifarm::triangular::{inside_triangle, Point, Scale};

fn tri(x: i64, y: i64) -> TriPos {
    TriPos { x, y }
}

fn pt(x: i64, y: i64) -> Point {
    Point { x, y }
}

#[test]
fn parity_decides_orientation() {
    assert!(!tri(0, 0).is_upside_down());
    assert!(tri(1, 0).is_upside_down());
    assert!(tri(0, 1).is_upside_down());
    assert!(!tri(1, 1).is_upside_down());
    assert!(tri(-1, 0).is_upside_down());
    assert!(!tri(-1, -1).is_upside_down());
    assert!(tri(-3, 0).is_upside_down());
    assert!(!tri(-4, 2).is_upside_down());
    assert!(tri(i64::MIN, 1).is_upside_down());
    assert!(!tri(i64::MAX, 1).is_upside_down());
}

#[test]
fn cartesian_center_exact_values() {
    // Upward cell at the origin sits one grid unit below its row line.
    assert_eq!(tri(0, 0).to_cartesian(), pt(0, -1));
    // A downward cell sits one unit above it.
    assert_eq!(tri(1, 0).to_cartesian(), pt(1, 1));
    assert_eq!(tri(0, 1).to_cartesian(), pt(0, 7));
    assert_eq!(tri(-2, -1).to_cartesian(), pt(-2, -5));
}

#[test]
fn vertices_exact_values() {
    let v = tri(0, 0).to_vertices();
    assert_eq!(v, [pt(1, -3), pt(-1, -3), pt(0, 3)]);
    let w = tri(1, 0).to_vertices();
    assert_eq!(w, [pt(0, 3), pt(2, 3), pt(1, -3)]);
}

#[test]
fn vertex_centroid_matches_center() {
    for &cell in &[tri(0, 0), tri(1, 0), tri(-3, 5), tri(7, -2)] {
        let c = cell.to_cartesian();
        let v = cell.to_vertices();
        assert_eq!(v[0].x + v[1].x + v[2].x, 3 * c.x);
        assert_eq!(v[0].y + v[1].y + v[2].y, 3 * c.y);
    }
}

#[test]
fn containment_center_in_far_out() {
    let shape = Shape(vec![tri(0, 0)]);
    let center = tri(0, 0).to_cartesian();
    assert!(shape.contains(center));
    // A point far outside (offset by (100, 100) cells' worth) is not held.
    assert!(!shape.contains(pt(200, 1200)));
}

#[test]
fn containment_counts_edges_as_inside() {
    let shape = Shape(vec![tri(0, 0)]);
    // A vertex of the triangle lies on the border, which counts as inside.
    assert!(shape.contains(pt(0, 3)));
    assert!(shape.contains(pt(1, -3)));
    // Just past the bottom edge is outside.
    assert!(!shape.contains(pt(0, -4)));
}

#[test]
fn inside_triangle_signs() {
    let a = pt(0, 0);
    let b = pt(4, 0);
    let c = pt(0, 4);
    assert!(inside_triangle(pt(1, 1), [a, b, c]));
    assert!(inside_triangle(pt(0, 0), [a, b, c]));
    assert!(!inside_triangle(pt(5, 5), [a, b, c]));
    assert!(!inside_triangle(pt(-1, 0), [a, b, c]));
}

#[test]
fn boundary_of_single_cell() {
    let shape = Shape(vec![tri(0, 0)]);
    // Left and right neighbours, then the cell across the bottom edge.
    assert_eq!(shape.boundary(), vec![tri(-1, 0), tri(1, 0), tri(0, -1)]);
}

#[test]
fn boundary_skips_occupied_cells() {
    let shape = Shape(vec![tri(0, 0), tri(1, 0)]);
    assert_eq!(
        shape.boundary(),
        vec![tri(-1, 0), tri(0, -1), tri(2, 0), tri(1, 1)]
    );
}

#[test]
fn boundary_of_downward_cell_goes_up() {
    let shape = Shape(vec![tri(1, 0)]);
    assert_eq!(shape.boundary(), vec![tri(0, 0), tri(2, 0), tri(1, 1)]);
}

#[test]
fn scaled_containment_divides_the_point() {
    let shape = Shape(vec![tri(0, 0)]);
    let half = Scale { num: 1, den: 2 };
    let double = Scale { num: 2, den: 1 };
    // The center of the cell, seen at double scale, is at (0, -2).
    assert!(shape.contains_scaled(pt(0, -2), double));
    assert!(!shape.contains_scaled(pt(0, -8), double));
    // At half scale the whole triangle shrinks towards the origin.
    assert!(shape.contains_scaled(pt(0, 1), half));
    assert!(!shape.contains_scaled(pt(0, 3), half));
}

#[test]
fn unit_scale_agrees_with_plain_containment() {
    let shape = Shape(vec![tri(0, 0), tri(1, 0), tri(0, 1)]);
    let unit = Scale { num: 1, den: 1 };
    for x in -6..=6 {
        for y in -6..=6 {
            let p = pt(x, y);
            assert_eq!(shape.contains(p), shape.contains_scaled(p, unit));
        }
    }
}
