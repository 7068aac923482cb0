use gloom::Real;
use gloom::ShapeGenerator;
use nalgebra_glm as glm;

fn r(v: f32) -> Real {
    glm::vec1(v)
}

fn f(v: &Real) -> f32 {
    v.x
}

fn close(a: f32, b: f32) -> bool {
    (a - b).abs() < 1e-5
}

fn check_common(verticies: &Vec<Real>, indicies: &Vec<u32>) {
    assert_eq!(verticies.len() % 3, 0);
    assert_eq!(indicies.len() % 3, 0);
    let vertex_count = verticies.len() / 3;
    for &ix in indicies.iter() {
        assert!((ix as usize) < vertex_count);
    }
}

#[test]
fn grid_counts_match_triangular_numbers() {
    for rows in 0..7usize {
        let (verticies, indicies) = ShapeGenerator::generate_n_force(rows, r(1.0), r(1.0));
        let n = rows;
        assert_eq!(verticies.len(), 3 * (n + 1) * (n + 2) / 2);
        assert_eq!(indicies.len(), 3 * n * (n + 1) / 2);
        check_common(&verticies, &indicies);
    }
}

#[test]
fn grid_two_rows_exact_layout() {
    let (verticies, indicies) = ShapeGenerator::generate_n_force(2, r(1.0), r(1.0));
    assert_eq!(verticies.len(), 18);
    assert_eq!(indicies.len(), 9);
    let t_width = 1.0f32 / 2.0;
    let t_height = 1.0f32 / 2.0;
    // row 0: single vertex at the top center
    assert!(close(f(&verticies[0]), 0.0));
    assert!(close(f(&verticies[1]), 0.5));
    assert!(close(f(&verticies[2]), 0.0));
    // row 1 starts half a triangle to the left, one triangle height down
    assert!(close(f(&verticies[3]), -t_width / 2.0));
    assert!(close(f(&verticies[4]), 0.5 - t_height));
    // row 2, vertex 2 is at the bottom right
    assert!(close(f(&verticies[15]), -t_width + 2.0 * t_width));
    assert!(close(f(&verticies[16]), -0.5));
    // triangles: one per vertex of the two upper rows
    assert_eq!(indicies, vec![0, 1, 2, 1, 3, 4, 2, 4, 5]);
}

#[test]
fn circle_fan_landmark_vertices() {
    let (verticies, indicies) = ShapeGenerator::generate_circle(8, r(1.0));
    assert_eq!(verticies.len(), 3 * 9);
    assert_eq!(indicies.len(), 3 * 8);
    check_common(&verticies, &indicies);
    // vertex 0 is the center
    assert!(close(f(&verticies[0]), 0.0));
    assert!(close(f(&verticies[1]), 0.0));
    assert!(close(f(&verticies[2]), 0.0));
    // vertex 1 sits at angle zero
    assert!(close(f(&verticies[3]), 1.0));
    assert!(close(f(&verticies[4]), 0.0));
    // vertex 5 sits on the opposite side
    assert!(close(f(&verticies[15]), -1.0));
    assert!(close(f(&verticies[16]), 0.0));
    // the last triangle wraps back to vertex 1
    assert_eq!(indicies[21], 0);
    assert_eq!(indicies[22], 8);
    assert_eq!(indicies[23], 1);
}

#[test]
fn square_corners_and_winding() {
    let (verticies, indicies) = ShapeGenerator::generate_square(r(3.0));
    assert_eq!(verticies.len(), 12);
    assert_eq!(indicies.len(), 6);
    check_common(&verticies, &indicies);
    let h = 1.5f32;
    let expected = [
        (h, h),
        (-h, h),
        (-h, -h),
        (h, -h),
    ];
    for (k, &(ex, ey)) in expected.iter().enumerate() {
        assert!(close(f(&verticies[3 * k]), ex));
        assert!(close(f(&verticies[3 * k + 1]), ey));
        assert!(close(f(&verticies[3 * k + 2]), 0.0));
    }
    assert_eq!(indicies, vec![0, 1, 2, 2, 3, 0]);
    // the two triangles together touch all four corners
    let mut seen: Vec<u32> = indicies.clone();
    seen.sort();
    seen.dedup();
    assert_eq!(seen, vec![0, 1, 2, 3]);
}

#[test]
fn spiral_layout_and_stitching() {
    let n = 3usize;
    let (verticies, indicies) = ShapeGenerator::generate_spiral(n, r(0.05), r(2.0), r(1.0), r(0.2));
    assert_eq!(verticies.len(), 3 * (2 * n + 2));
    assert_eq!(indicies.len(), 6 * n);
    check_common(&verticies, &indicies);
    // sample 0 sits at angle zero: outer vertex on the x axis at the inner radius
    assert!(close(f(&verticies[0]), 0.2));
    assert!(close(f(&verticies[1]), 0.0));
    // its paired inner vertex is thickness closer to the center
    assert!(close(f(&verticies[3]), 0.2 - 0.05));
    // stitching of the first segment
    assert_eq!(&indicies[0..6], &[2, 1, 0, 1, 2, 3]);
}

#[test]
fn sine_ribbon_bottom_row_is_flat_minimum() {
    let n = 6usize;
    let width = 2.0f32;
    let rate = 0.9f32;
    let (verticies, indicies) = ShapeGenerator::generate_sine(n, r(width), r(rate));
    assert_eq!(verticies.len(), 6 * n);
    assert_eq!(indicies.len(), 6 * n);
    check_common(&verticies, &indicies);
    let mut lowest = f32::MAX;
    for p in 0..n {
        let y = ((p as f32 * rate) as f64).sin() as f32;
        let x = -width / 2.0 + width * p as f32 / (n as f32 - 1.0);
        assert!(close(f(&verticies[3 * p]), x));
        assert!(close(f(&verticies[3 * p + 1]), y));
        if y < lowest {
            lowest = y;
        }
    }
    for p in 0..n {
        // bottom row: same x, constant minimum y
        assert!(close(f(&verticies[3 * (n + p)]), f(&verticies[3 * p])));
        assert!(close(f(&verticies[3 * (n + p) + 1]), lowest));
        assert!(close(f(&verticies[3 * (n + p) + 2]), 0.0));
    }
    // strip-wise stitching of the first pair, and the trailing padding
    assert_eq!(&indicies[0..6], &[1, 0, 6, 6, 7, 1]);
    assert_eq!(&indicies[6 * (n - 1)..6 * n], &[0, 0, 0, 0, 0, 0]);
}

#[test]
fn generators_are_deterministic() {
    let (v1, i1) = ShapeGenerator::generate_circle(12, r(2.5));
    let (v2, i2) = ShapeGenerator::generate_circle(12, r(2.5));
    assert_eq!(i1, i2);
    for (a, b) in v1.iter().zip(v2.iter()) {
        assert_eq!(f(a).to_bits(), f(b).to_bits());
    }
}
