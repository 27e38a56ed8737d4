use imlet::types::computation::ScalarField;
use imlet::types::geometry::Vec3;

#[test]
fn scalar_field_test_smooth_field_half() {
    let mut data: Vec<f64> = vec![1.0; 27];
    data[13] = 2.0;
    let mut field = ScalarField::with_data(Vec3::origin(), 1.0, (3, 3, 3).into(), data);
    field.smooth(0.5, 1);

    let field_data = field.copy_data();

    for (idx, val) in field_data.iter().enumerate() {
        if idx == 13 {
            assert!((1.5 - val).abs() < 0.001);
        } else {
            assert!((1.0 - val).abs() < 0.001);
        }
    }
}

#[test]
fn scalar_field_test_smooth_field_full() {
    let mut data: Vec<f64> = vec![1.0; 27];
    data[13] = 2.0;
    let mut field = ScalarField::with_data(Vec3::origin(), 1.0, (3, 3, 3).into(), data);
    field.smooth(1.0, 1);

    let field_data = field.copy_data();

    for val in field_data {
        assert!((1.0 - val).abs() < 0.001);
    }
}

#[test]
fn scalar_field_test_smooth_field_full_varied() {
    let mut data: Vec<f64> = vec![0.0; 27];
    data[4] = 10.0;
    data[10] = 20.0;
    data[12] = 5.0;
    data[14] = 20.0;
    data[16] = 15.0;
    data[22] = 20.0;
    let mut field = ScalarField::with_data(Vec3::origin(), 1.0, (3, 3, 3).into(), data);
    field.smooth(1.0, 1);

    let field_data = field.copy_data();
    assert!((15.0 - field_data[13]).abs() < 0.001);
}

#[test]
fn scalar_field_test_smooth_field_half_varied() {
    let mut data: Vec<f64> = vec![0.0; 27];
    data[4] = 10.0;
    data[10] = 20.0;
    data[12] = 5.0;
    data[14] = 20.0;
    data[16] = 15.0;
    data[22] = 20.0;
    let mut field = ScalarField::with_data(Vec3::origin(), 1.0, (3, 3, 3).into(), data);
    field.smooth(0.5, 1);

    let field_data = field.copy_data();
    assert!((7.5 - field_data[13]).abs() < 0.001);
}

#[test]
fn scalar_field_test_threshold_field() {
    let mut data: Vec<f64> = vec![0.01; 27];
    data[13] = 2.0;
    data[20] = 1.0;
    data[21] = 1.5;

    let mut field = ScalarField::with_data(Vec3::origin(), 1.0, (3, 3, 3).into(), data);
    field.threshold(0.1);

    let field_data = field.copy_data();

    assert_eq!(24, field_data.iter().filter(|&val| *val == 0.0).count());
    assert!((2.0 - field_data[13]).abs() < 0.001);
    assert!((1.0 - field_data[20]).abs() < 0.001);
    assert!((1.5 - field_data[21]).abs() < 0.001);
}

#[test]
fn scalar_field_test_map_point_index() {
    let field: ScalarField<f64> = ScalarField::new(Vec3::origin(), 1.0, (10, 10, 10).into());

    assert_eq!(1, field.point_index1d(1, 0, 0));
    assert_eq!(10, field.point_index1d(0, 1, 0));
    assert_eq!(11, field.point_index1d(1, 1, 0));
    assert_eq!(100, field.point_index1d(0, 0, 1));
    assert_eq!(110, field.point_index1d(0, 1, 1));
    assert_eq!(111, field.point_index1d(1, 1, 1));
}

#[test]
fn scalar_field_index_roundtrip_and_counts() {
    let field: ScalarField<f64> = ScalarField::new(Vec3::origin(), 0.5, (4, 3, 2).into());
    assert_eq!(field.num_points(), 24);
    assert_eq!(field.num_cells(), 6);
    for index in 0..24 {
        let (i, j, k) = field.point_index3d(index);
        assert_eq!(field.point_index1d(i, j, k), index);
    }
    assert_eq!(field.cell_index3d(5), (2, 1, 0));
    assert_eq!(field.cell_size(), 0.5);
    assert!(field.data().iter().all(|v| *v == 0.0));
}

#[test]
fn scalar_field_smooth_keeps_boundary_and_zero_iterations() {
    let data: Vec<f64> = (0..27).map(|v| v as f64).collect();
    let mut field = ScalarField::with_data(Vec3::origin(), 1.0, (3, 3, 3).into(), data.clone());
    field.smooth(0.5, 0);
    assert_eq!(field.copy_data(), data);
    field.smooth(0.5, 3);
    let smoothed = field.copy_data();
    for (idx, val) in smoothed.iter().enumerate() {
        if idx != 13 {
            assert_eq!(*val, data[idx]);
        }
    }
}

#[test]
fn scalar_field_cell_values_and_corners() {
    let data: Vec<f64> = (0..27).map(|v| v as f64).collect();
    let field = ScalarField::with_data(Vec3::new(1.0, 1.0, 1.0), 2.0, (3, 3, 3).into(), data);
    assert_eq!(field.cell_values(1, 1, 1), [13.0, 14.0, 17.0, 16.0, 22.0, 23.0, 26.0, 25.0]);
    let corners = field.cell_corners(1, 0, 0);
    assert!(corners[0].distance_to_coord(3.0, 1.0, 1.0) < 1e-12);
    assert!(corners[6].distance_to_coord(5.0, 3.0, 3.0) < 1e-12);
}
