use imlet::types::computation::data::field_iterator::{CellGridIter, DenseCellValueIterator, PointGridIter};
use imlet::types::geometry::{BoundingBox, Vec3};

const EPSILON: f64 = 1e-10;

fn assert_float_eq(a: f64, b: f64) {
    assert!((a - b).abs() < EPSILON, "Expected {b} but got {a}");
}

#[test]
fn test_point_grid_iterator() {
    let bounds = BoundingBox::new(Vec3::new(0.0, 0.0, 0.0), Vec3::new(1.0, 1.0, 1.0));
    let point_counts = (2, 2, 2);
    let iter = PointGridIter::new(bounds, point_counts);

    let points: Vec<Vec3<f64>> = iter.collect();

    assert_eq!(points.len(), 8);

    assert_float_eq(points[0].x, 0.0);
    assert_float_eq(points[0].y, 0.0);
    assert_float_eq(points[0].z, 0.0);

    assert_float_eq(points[7].x, 1.0);
    assert_float_eq(points[7].y, 1.0);
    assert_float_eq(points[7].z, 1.0);
}

#[test]
fn test_cell_grid_iterator() {
    let bounds = BoundingBox::new(Vec3::new(0.0, 0.0, 0.0), Vec3::new(1.0, 1.0, 1.0));
    let cell_counts = (1, 1, 1);
    let iter = CellGridIter::new(bounds, cell_counts);

    let cells: Vec<BoundingBox<f64>> = iter.collect();

    assert_eq!(cells.len(), 1);

    assert_float_eq(cells[0].min.x, 0.0);
    assert_float_eq(cells[0].min.y, 0.0);
    assert_float_eq(cells[0].min.z, 0.0);
    assert_float_eq(cells[0].max.x, 1.0);
    assert_float_eq(cells[0].max.y, 1.0);
    assert_float_eq(cells[0].max.z, 1.0);
}

#[test]
fn test_dense_cell_value_iterator() {
    let data = vec![0.0, 1.0, 2.0, 3.0, 4.0, 5.0, 6.0, 7.0];
    let point_count = (2, 2, 2);
    let iter = DenseCellValueIterator::new(&data, point_count);

    let cell_values: Vec<[f64; 8]> = iter.collect();

    assert_eq!(cell_values.len(), 1);

    let expected = [0.0, 1.0, 3.0, 2.0, 4.0, 5.0, 7.0, 6.0];
    assert_eq!(cell_values[0], expected);
}

#[test]
fn test_point_grid_iterator_walk_order() {
    let bounds = BoundingBox::new(Vec3::new(0.0, 0.0, 0.0), Vec3::new(2.0, 1.0, 1.0));
    let mut iter = PointGridIter::new(bounds, (3, 2, 2));
    let first = iter.next().unwrap();
    let second = iter.next().unwrap();
    assert_float_eq(first.x, 0.0);
    assert_float_eq(second.x, 1.0);
    assert_float_eq(second.y, 0.0);
    let rest = iter.collect();
    assert_eq!(rest.len(), 10);
}

#[test]
fn test_cell_grid_iterator_count() {
    let bounds = BoundingBox::new(Vec3::new(0.0, 0.0, 0.0), Vec3::new(3.0, 2.0, 1.0));
    let cells = CellGridIter::new(bounds, (3, 2, 1)).collect();
    assert_eq!(cells.len(), 6);
    assert_float_eq(cells[5].max.x, 3.0);
    assert_float_eq(cells[5].max.y, 2.0);
}

#[test]
fn test_dense_cell_value_iterator_ends() {
    let data: Vec<f64> = (0..8).map(|v| v as f64).collect();
    let mut iter = DenseCellValueIterator::new(&data, (2, 2, 2));
    assert!(iter.next().is_some());
    assert!(iter.next().is_none());
    assert!(iter.next().is_none());
}
