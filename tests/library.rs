use adfield::gaussian::{require_inverse, GaussianError};
use adfield::grid::grid_cells;
use adfield::render::keep_present;
use nalgebra::Matrix3;

#[test]
fn singular_covariance_is_reported() {
    let zero: Matrix3<f64> = Matrix3::zeros();
    let r = require_inverse(zero.try_inverse());
    assert_eq!(r.err(), Some(GaussianError::UninvertableCovarianceMatrix));
}

#[test]
fn identity_covariance_is_accepted() {
    let unit: Matrix3<f64> = Matrix3::identity();
    let r = require_inverse(unit.try_inverse());
    assert_eq!(r.ok(), Some(Matrix3::identity()));
}

#[test]
fn invertible_covariance_yields_its_inverse() {
    let m: Matrix3<f64> = Matrix3::new(2.0, 0.0, 0.0, 0.0, 4.0, 0.0, 0.0, 0.0, 0.5);
    let inv = require_inverse(m.try_inverse()).ok().unwrap();
    assert_eq!(inv, Matrix3::new(0.5, 0.0, 0.0, 0.0, 0.25, 0.0, 0.0, 0.0, 2.0));
}

#[test]
fn error_message() {
    assert_eq!(
        GaussianError::UninvertableCovarianceMatrix.message(),
        "Could not invert covariance matrix"
    );
}

#[test]
fn grid_is_row_major() {
    let cells = grid_cells(3, 2);
    assert_eq!(cells, vec![(0, 0), (1, 0), (2, 0), (0, 1), (1, 1), (2, 1)]);
}

#[test]
fn grid_cell_by_index() {
    let cells = grid_cells(7, 5);
    assert_eq!(cells.len(), 35);
    assert_eq!(cells[0], (0, 0));
    assert_eq!(cells[6], (6, 0));
    assert_eq!(cells[7], (0, 1));
    assert_eq!(cells[4 * 7 + 3], (3, 4));
    assert_eq!(cells[34], (6, 4));
}

#[test]
fn empty_grids() {
    assert!(grid_cells(0, 5).is_empty());
    assert!(grid_cells(5, 0).is_empty());
    assert!(grid_cells(0, 0).is_empty());
}

#[test]
fn single_column_grid() {
    assert_eq!(grid_cells(1, 3), vec![(0, 0), (0, 1), (0, 2)]);
}

#[test]
fn no_ray_for_any_pixel_gives_no_samples() {
    let outcomes: Vec<Option<(f64, f64, f64)>> = vec![None; 12];
    assert!(keep_present(&outcomes).is_empty());
}

#[test]
fn missing_rays_leave_gaps() {
    let outcomes = vec![
        Some((0.0, 0.0, 1.5)),
        None,
        Some((2.0, 0.0, 0.25)),
        None,
        None,
        Some((1.0, 1.0, 3.0)),
    ];
    assert_eq!(
        keep_present(&outcomes),
        vec![(0.0, 0.0, 1.5), (2.0, 0.0, 0.25), (1.0, 1.0, 3.0)]
    );
}

#[test]
fn every_pixel_with_a_ray_is_kept() {
    let outcomes: Vec<Option<u32>> = vec![Some(4), Some(1), Some(9)];
    assert_eq!(keep_present(&outcomes), vec![4, 1, 9]);
}

#[test]
fn no_pixels_no_samples() {
    let outcomes: Vec<Option<u32>> = Vec::new();
    assert!(keep_present(&outcomes).is_empty());
}
