use imlet::types::computation::functions::{CoordinateValue, XDomain, XYZValue, YDomain, ZDomain};
use imlet::types::computation::traits::{ImplicitComponent, ImplicitFunction};
use imlet::types::computation::Data;

#[test]
fn test_natural_z_domain() {
    let domain: ZDomain<f32> = ZDomain::natural();

    assert!(domain.eval(1., 0., 0.).abs() < f32::EPSILON);
    assert!((domain.eval(1., 0., 0.5) - 0.5).abs() < f32::EPSILON);
    assert!((domain.eval(1., 0., 1.) - 1.).abs() < f32::EPSILON);
}

#[test]
fn test_natural_y_domain() {
    let domain: YDomain<f32> = YDomain::natural();

    assert!(domain.eval(1., 0., 0.).abs() < f32::EPSILON);
    assert!((domain.eval(1., 0.5, 0.5) - 0.5).abs() < f32::EPSILON);
    assert!((domain.eval(1., 1., 1.) - 1.).abs() < f32::EPSILON);
}

#[test]
fn test_natural_x_domain() {
    let domain: XDomain<f32> = XDomain::natural();

    assert!(domain.eval(0., 1., 0.).abs() < f32::EPSILON);
    assert!((domain.eval(0.5, 0., 1.0) - 0.5).abs() < f32::EPSILON);
    assert!((domain.eval(1., 1., 1.) - 1.).abs() < f32::EPSILON);
}

#[test]
fn test_handle_zero_size_domain_x() {
    let mut domain: XDomain<f32> = XDomain::natural();

    domain.set_parameter("Max", Data::Value(0.0));

    assert!((domain.max - 1.0).abs() < f32::EPSILON);

    domain.set_parameter("Min", Data::Value(1.0));

    assert!((domain.min).abs() < f32::EPSILON);
}

#[test]
fn test_handle_zero_size_domain_y() {
    let mut domain: YDomain<f32> = YDomain::natural();

    domain.set_parameter("Max", Data::Value(0.0));

    assert!((domain.max - 1.0).abs() < f32::EPSILON);

    domain.set_parameter("Min", Data::Value(1.0));

    assert!((domain.min).abs() < f32::EPSILON);
}

#[test]
fn test_handle_zero_size_domain_z() {
    let mut domain: ZDomain<f32> = ZDomain::natural();

    domain.set_parameter("Max", Data::Value(0.0));

    assert!((domain.max - 1.0).abs() < f32::EPSILON);

    domain.set_parameter("Min", Data::Value(1.0));

    assert!((domain.min).abs() < f32::EPSILON);
}

#[test]
fn test_domain_accepts_distinct_bound() {
    let mut domain: XDomain<f64> = XDomain::natural();
    domain.set_parameter("Max", Data::Value(4.0));
    assert_eq!(domain.max, 4.0);
    assert!((domain.eval(2.0, 0.0, 0.0) - 0.5).abs() < 1e-12);
    domain.set_parameter("Other", Data::Value(7.0));
    assert_eq!(domain.min, 0.0);
    assert_eq!(domain.max, 4.0);
    assert!(matches!(domain.read_parameter("Max"), Some(Data::Value(v)) if v == 4.0));
    assert!(domain.read_parameter("Other").is_none());
}

#[test]
fn test_xyz_value_gives_the_selected_coordinate() {
    let fx = XYZValue::new(CoordinateValue::X);
    let fy = XYZValue::new(CoordinateValue::Y);
    let fz = XYZValue::new(CoordinateValue::Z);
    assert_eq!(fx.eval(1.0, 2.0, 3.0), 1.0);
    assert_eq!(fy.eval(1.0, 2.0, 3.0), 2.0);
    assert_eq!(fz.eval(1.0, 2.0, 3.0), 3.0);
}

#[test]
fn test_xyz_value_reads_its_coordinate() {
    let mut f = XYZValue::new(CoordinateValue::Y);
    let read: Option<Data<f64>> = f.read_parameter("Coordinate");
    assert!(matches!(read, Some(Data::EnumValue(ref s)) if s == "Y"));
    ImplicitComponent::<f64>::set_parameter(&mut f, "Coordinate", Data::EnumValue("Z".to_string()));
    let read: Option<Data<f64>> = f.read_parameter("Coordinate");
    assert!(matches!(read, Some(Data::EnumValue(ref s)) if s == "Z"));
    let other: Option<Data<f64>> = f.read_parameter("Other");
    assert!(other.is_none());
}
