use imlet::types::computation::traits::{ImplicitComponent, ImplicitFunction};
use imlet::types::computation::{Data, DataType, Parameter};
use imlet::types::geometry::{BoundingBox, Sphere, Torus, Vec3};

#[test]
fn test_compute_corners() {
    let bounds = BoundingBox::new(Vec3::origin(), Vec3::new(1.0, 1.0, 1.0));

    let corners = bounds.corners();

    assert!(corners[0].distance_to_coord(0.0, 0.0, 0.0) < 0.001);
    assert!(corners[1].distance_to_coord(1.0, 0.0, 0.0) < 0.001);
    assert!(corners[2].distance_to_coord(1.0, 1.0, 0.0) < 0.001);
    assert!(corners[3].distance_to_coord(0.0, 1.0, 0.0) < 0.001);
    assert!(corners[4].distance_to_coord(0.0, 0.0, 1.0) < 0.001);
    assert!(corners[5].distance_to_coord(1.0, 0.0, 1.0) < 0.001);
    assert!(corners[6].distance_to_coord(1.0, 1.0, 1.0) < 0.001);
    assert!(corners[7].distance_to_coord(0.0, 1.0, 1.0) < 0.001);
}

#[test]
fn test_compute_corners_non_origin() {
    let bounds = BoundingBox::new(Vec3::new(1.0, 1.0, 1.0), Vec3::new(2.0, 2.0, 2.0));

    let corners = bounds.corners();

    assert!(corners[0].distance_to_coord(1.0, 1.0, 1.0) < 0.001);
    assert!(corners[1].distance_to_coord(2.0, 1.0, 1.0) < 0.001);
    assert!(corners[2].distance_to_coord(2.0, 2.0, 1.0) < 0.001);
    assert!(corners[3].distance_to_coord(1.0, 2.0, 1.0) < 0.001);
    assert!(corners[4].distance_to_coord(1.0, 1.0, 2.0) < 0.001);
    assert!(corners[5].distance_to_coord(2.0, 1.0, 2.0) < 0.001);
    assert!(corners[6].distance_to_coord(2.0, 2.0, 2.0) < 0.001);
    assert!(corners[7].distance_to_coord(1.0, 2.0, 2.0) < 0.001);
}

#[test]
fn test_compute_wireframe() {
    let bounds = BoundingBox::new(Vec3::origin(), Vec3::new(1.0, 1.0, 1.0));

    let wireframe = bounds.as_wireframe();

    for line in wireframe {
        assert!(line.length() - 1.0 < 0.001);
    }
}

#[test]
fn test_compute_wireframe_non_origin() {
    let bounds = BoundingBox::new(Vec3::new(1.0, 1.0, 1.0), Vec3::new(2.0, 2.0, 2.0));

    let wireframe = bounds.as_wireframe();

    for line in wireframe {
        assert!(line.length() - 1.0 < 0.001);
    }
}

#[test]
fn bounding_box_test_get_assigns_params() {
    let mut aabb: BoundingBox<f64> = BoundingBox::new(Vec3::new(1., 1., 1.), Vec3::new(10., 10., 10.));

    let parameter_names: Vec<&str> = aabb.parameters().iter().map(|p| p.name).collect();

    for &param_name in parameter_names.iter() {
        aabb.set_parameter(param_name, Data::Vec3(Vec3::origin()));
    }

    assert!(
        aabb.min.distance_to_vec3(&Vec3::origin()).abs() < f64::EPSILON,
        "Expected param to be origin but was {:?}",
        aabb.min
    );
    assert!(
        aabb.max.distance_to_vec3(&Vec3::origin()).abs() < f64::EPSILON,
        "Expected param to be origin, but was {:?}",
        aabb.max
    );
}

#[test]
fn sphere_test_get_assigns_params() {
    let mut sphere: Sphere<f64> = Sphere::new(Vec3::new(1., 1., 1.), 10.);

    let params: Vec<Parameter> = sphere.parameters().iter().map(|p| p.clone()).collect();

    for param in params {
        match param.data_type {
            DataType::Value => sphere.set_parameter(&param.name, Data::Value(1.)),
            DataType::Vec3 => sphere.set_parameter(&param.name, Data::Vec3(Vec3::new(1., 1., 1.))),
            _ => panic!("Error in the param"),
        }
    }

    assert!((sphere.radius - 1.).abs() < f64::EPSILON);
    assert!(sphere.centre.distance_to_coord(1., 1., 1.).abs() < f64::EPSILON);
}

#[test]
fn test_torus_centre_distance_value() {
    let torus: Torus<f64> = Torus::new(Vec3::origin(), 45., 5.);
    let val = torus.eval(45., 0., 0.);
    assert!(
        (val + 5.).abs() < f64::EPSILON,
        "Incorrect signed distance value at tours centre line, value was {}, but radius is {}",
        val,
        5.0
    );
}

#[test]
fn test_compute_angle_opposite() {
    let v1: Vec3<f64> = Vec3::new(1.392251041, 0.440162188, -0.14818595);

    let v2 = Vec3::new(-0.26339719, -0.08327343, 0.028035004);

    let angle = v1.angle(&v2).unwrap();
    assert!((angle - std::f64::consts::PI).abs() < 0.01);
}

#[test]
fn test_slerp_opposite_vecs() {
    let v1: Vec3<f64> = Vec3::new(1.0, 0.0, 0.0);
    let v2 = Vec3::new(0.0, 1.0, 0.0);

    let interpolated = Vec3::slerp(v1, v2, 0.5);

    let expected_angle = std::f64::consts::PI / 4.0;
    let first_angle = interpolated.angle(&v1).unwrap();
    let second_angle = interpolated.angle(&v2).unwrap();
    assert!(
        (expected_angle - first_angle).abs() < 0.001,
        "Incorrect angle, expected {} but was {}",
        expected_angle,
        first_angle
    );
    assert!(
        (expected_angle - second_angle).abs() < 0.001,
        "Incorrect angle, expected {} but was {}",
        expected_angle,
        second_angle
    );
}
