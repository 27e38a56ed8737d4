use imlet::types::computation::data::field_iterator::{CellIterator, CellValueIterator, PointIterator, ValueIterator};
use imlet::types::computation::data::DenseField;
use imlet::types::computation::ModelError;
use imlet::types::geometry::{BoundingBox, Vec3};

#[test]
fn dense_field_test_smooth_field_half() {
    let mut data: Vec<f64> = vec![1.0; 27];
    data[13] = 2.0;
    let mut field = DenseField::from_data(Vec3::origin(), 1.0, (3, 3, 3).into(), data).unwrap();
    field.smooth(0.5, 1);

    let field_data = field.copy_data();

    for (idx, val) in field_data.iter().enumerate() {
        if idx == 13 {
            assert!((1.5 - val).abs() < 0.001);
        } else {
            assert!((1.0 - val).abs() < 0.001);
        }
    }
}

#[test]
fn dense_field_test_smooth_field_full() {
    let mut data: Vec<f64> = vec![1.0; 27];
    data[13] = 2.0;
    let mut field = DenseField::from_data(Vec3::origin(), 1.0, (3, 3, 3).into(), data).unwrap();
    field.smooth(1.0, 1);

    let field_data = field.copy_data();

    for val in field_data {
        assert!((1.0 - val).abs() < 0.001);
    }
}

#[test]
fn dense_field_test_smooth_field_full_varied() {
    let mut data: Vec<f64> = vec![0.0; 27];
    data[4] = 10.0;
    data[10] = 20.0;
    data[12] = 5.0;
    data[14] = 20.0;
    data[16] = 15.0;
    data[22] = 20.0;
    let mut field = DenseField::from_data(Vec3::origin(), 1.0, (3, 3, 3).into(), data).unwrap();
    field.smooth(1.0, 1);

    let field_data = field.copy_data();
    assert!((15.0 - field_data[13]).abs() < 0.001);
}

#[test]
fn dense_field_test_smooth_field_half_varied() {
    let mut data: Vec<f64> = vec![0.0; 27];
    data[4] = 10.0;
    data[10] = 20.0;
    data[12] = 5.0;
    data[14] = 20.0;
    data[16] = 15.0;
    data[22] = 20.0;
    let mut field = DenseField::from_data(Vec3::origin(), 1.0, (3, 3, 3).into(), data).unwrap();
    field.smooth(0.5, 1);

    let field_data = field.copy_data();
    assert!((7.5 - field_data[13]).abs() < 0.001);
}

#[test]
fn dense_field_test_threshold_field() {
    let mut data: Vec<f64> = vec![0.01; 27];
    data[13] = 2.0;
    data[20] = 1.0;
    data[21] = 1.5;

    let mut field = DenseField::from_data(Vec3::origin(), 1.0, (3, 3, 3).into(), data).unwrap();
    field.threshold(0.1);

    let field_data = field.copy_data();

    assert_eq!(24, field_data.iter().filter(|&val| *val == 0.0).count());
    assert!((2.0 - field_data[13]).abs() < 0.001);
    assert!((1.0 - field_data[20]).abs() < 0.001);
    assert!((1.5 - field_data[21]).abs() < 0.001);
}

#[test]
fn dense_field_test_map_point_index() {
    let field: DenseField<f64> = DenseField::new(Vec3::origin(), 1.0, (10, 10, 10).into());

    assert_eq!(1, field.point_index1d(1, 0, 0));
    assert_eq!(10, field.point_index1d(0, 1, 0));
    assert_eq!(11, field.point_index1d(1, 1, 0));
    assert_eq!(100, field.point_index1d(0, 0, 1));
    assert_eq!(110, field.point_index1d(0, 1, 1));
    assert_eq!(111, field.point_index1d(1, 1, 1));
}

#[test]
fn test_value_iterator() {
    let data = vec![1.0, 2.0, 3.0, 4.0, 5.0, 6.0, 7.0, 8.0];
    let field = DenseField::from_data(Vec3::origin(), 1.0, (2, 2, 2).into(), data).unwrap();

    let values: Vec<f64> = field.iter_values();
    assert_eq!(values, vec![1.0, 2.0, 3.0, 4.0, 5.0, 6.0, 7.0, 8.0]);
}

#[test]
fn test_cell_value_iterator() {
    let data = vec![
        1.0, 2.0, 3.0, 4.0, 5.0, 6.0, 7.0, 8.0, 9.0, 10.0, 11.0, 12.0, 13.0, 14.0, 15.0, 16.0, 17.0,
        18.0, 19.0, 20.0, 21.0, 22.0, 23.0, 24.0, 25.0, 26.0, 27.0,
    ];
    let field = DenseField::from_data(Vec3::origin(), 1.0, (3, 3, 3).into(), data).unwrap();

    let cell_values: Vec<[f64; 8]> = field.iter_cell_values();
    assert_eq!(cell_values.len(), 8);

    assert_eq!(cell_values[0], field.cell_values(0, 0, 0));

    assert_eq!(cell_values[7], field.cell_values(1, 1, 1));
}

#[test]
fn dense_field_rejects_wrong_buffer_length() {
    let result = DenseField::from_data(Vec3::origin(), 1.0, (2, 2, 2).into(), vec![1.0; 7]);
    match result {
        Err(ModelError::Custom(message)) => {
            assert_eq!(message, "Failed to generate field from data. Point count and data length must match")
        }
        _ => panic!("expected an error"),
    }
}

#[test]
fn dense_field_padding_sets_faces_only() {
    let data: Vec<f64> = (0..27).map(|v| v as f64).collect();
    let mut field = DenseField::from_data(Vec3::origin(), 1.0, (3, 3, 3).into(), data).unwrap();
    field.padding(-1.0);
    let values = field.copy_data();
    for (idx, val) in values.iter().enumerate() {
        if idx == 13 {
            assert_eq!(*val, 13.0);
        } else {
            assert_eq!(*val, -1.0);
        }
    }
}

#[test]
fn dense_field_from_bounds_counts_points() {
    let bounds = BoundingBox::new(Vec3::origin(), Vec3::new(2.0, 1.0, 3.0));
    let counts = DenseField::point_count(&bounds, 0.5).unwrap();
    assert_eq!((counts.i, counts.j, counts.k), (5, 3, 7));
    let field = DenseField::from_bounds(&bounds, 0.5).unwrap();
    assert_eq!(field.num_points(), 105);
    assert_eq!(field.num_cells(), 4 * 2 * 6);
    assert_eq!(field.iter_points().len(), 105);
    assert_eq!(field.iter_cells().len(), 48);
    let bad = BoundingBox::new(Vec3::origin(), Vec3::new(-2.0, 1.0, 1.0));
    assert!(DenseField::point_count(&bad, 0.5).is_none());
}

#[test]
fn dense_field_set_value_and_indices() {
    let mut field: DenseField<f64> = DenseField::new(Vec3::origin(), 1.0, (3, 2, 2).into());
    field.set_value(7, 4.5);
    assert_eq!(field.data()[7], 4.5);
    assert_eq!(field.point_index3d(7), (1, 0, 1));
    assert_eq!(field.cell_index1d(1, 0, 0), 1);
    assert_eq!(field.cell_index3d(1), (1, 0, 0));
}
