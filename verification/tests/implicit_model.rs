use imlet::types::computation::model::{ImplicitModel, ModelComponent};
use imlet::types::computation::Data;
use imlet::types::computation::operations::math::Add;
use imlet::types::computation::operations::shape::BooleanUnion;
use imlet::types::computation::ModelError;
use imlet::types::geometry::{Sphere, Vec3};

#[test]
fn test_build_model_with_input_connections() {
    let mut model: ImplicitModel<f64> = ImplicitModel::new();

    model.add_constant("Value", 1.0).unwrap();
    model.add_operation("Add", Add::new(), None).unwrap();

    model.add_input("Add", "Value", 0).unwrap();
    model.add_input("Add", "Value", 1).unwrap();

    let val = model.evaluate_at("Add", 0.0, 0.0, 0.0).unwrap();

    assert!((val - 2.0).abs() < f64::EPSILON, "Incorrect value. Expected 2.0 but was {val}");
}

#[test]
fn test_error_with_cyclic_dependecies() {
    let mut model: ImplicitModel<f64> = ImplicitModel::new();

    model.add_constant("Value", 1.0).unwrap();
    model.add_operation("Add", Add::new(), None).unwrap();

    model.add_input("Add", "Value", 0).unwrap();
    model.add_input("Add", "Value", 1).unwrap();

    model.add_operation("Add2", Add::new(), None).unwrap();

    model.add_input("Add2", "Add", 0).unwrap();
    model.add_input("Add2", "Value", 1).unwrap();

    let val = model.evaluate_at("Add2", 0.0, 0.0, 0.0).unwrap();

    assert!((val - 3.0).abs() < f64::EPSILON, "Incorrect value. Expected 3.0 but was {val}");

    model.remove_input("Add", 0).unwrap();

    let error = model.add_input("Add", "Add2", 0).unwrap_err();

    assert!(matches!(error, ModelError::CyclicDependency { .. }));
}

#[test]
fn test_error_incorrect_input_count() {
    let mut model = ImplicitModel::new();

    model.add_constant("Value", 1.0).unwrap();
    model.add_operation("Add", Add::new(), None).unwrap();

    model.add_input("Add", "Value", 0).unwrap();
    model.add_input("Add", "Value", 1).unwrap();

    let error = model.add_input("Add", "Value", 2).unwrap_err();

    assert!(matches!(error, ModelError::InputIndexOutOfRange { .. }));
}

#[test]
fn test_error_missing_tag() {
    let mut model = ImplicitModel::new();

    model.add_constant("Value", 1.0).unwrap();
    model.add_operation("Add", Add::new(), None).unwrap();

    model.add_input("Add", "Value", 0).unwrap();

    let error = model.add_input("Add", "Value2", 1).unwrap_err();

    assert!(matches!(error, ModelError::MissingTag { .. }));
}

#[test]
fn test_error_duplicate_tag() {
    let mut model = ImplicitModel::new();

    model.add_constant("Value", 1.0).unwrap();

    let error = model.add_operation("Value", Add::new(), None).unwrap_err();

    assert!(matches!(error, ModelError::DuplicateTag { .. }));
}

#[test]
fn test_error_missing_input() {
    let mut model = ImplicitModel::new();

    model.add_constant("Value", 1.0).unwrap();
    model.add_operation("Add", Add::new(), None).unwrap();

    model.add_input("Add", "Value", 0).unwrap();

    let error = model.evaluate_at("Add", 0.0, 0.0, 0.0).unwrap_err();

    assert!(matches!(error, ModelError::MissingInput { .. }));
}

#[test]
fn test_error_add_operation_incorrect_input_list() {
    let mut model: ImplicitModel<f64> = ImplicitModel::new();

    model.add_constant("Value", 1.0).unwrap();

    let error1 = model.add_operation("Add", Add::new(), Some(&["Value"])).unwrap_err();

    let error2 = model.add_operation("Add", Add::new(), Some(&["Value"])).unwrap_err();

    assert!(matches!(error1, ModelError::IncorrectInputCount { .. }));
    assert!(matches!(error2, ModelError::IncorrectInputCount { .. }));
}

#[test]
fn model_example_union_of_sphere_and_constant() {
    let size: f64 = 10.0;
    let mut model = ImplicitModel::new();
    let sphere = model
        .add_function("Sphere", Sphere::new(Vec3::new(size / 2.0, size / 2.0, size / 2.0), size / 3.0))
        .unwrap();
    let constant = model.add_constant("Level", 1.0).unwrap();
    let union = model.add_operation("Union", BooleanUnion::new(), Some(&[&sphere, &constant])).unwrap();
    assert_eq!(model.get_default_output(), Some("Union"));
    let inside = model.evaluate_at(&union, 5.0, 5.0, 5.0).unwrap();
    assert!((inside + size / 3.0).abs() < 1e-9);
    let far = model.evaluate_at(&union, 100.0, 5.0, 5.0).unwrap();
    assert_eq!(far, 1.0);
}

#[test]
fn model_remove_component_unassigns_inputs() {
    let mut model = ImplicitModel::new();
    model.add_constant("Value", 1.0).unwrap();
    model.add_operation("Add", Add::new(), Some(&["Value", "Value"])).unwrap();
    model.set_default_output("Value");
    model.remove_component("Value").unwrap();
    assert_eq!(model.get_inputs("Add").unwrap(), &vec![None, None]);
    assert_eq!(model.get_default_output(), None);
    assert!(model.get_component("Value").is_none());
    assert!(matches!(model.remove_component("Value"), Err(ModelError::MissingTag(t)) if t == "Value"));
}

#[test]
fn model_remove_input_errors() {
    let mut model: ImplicitModel<f64> = ImplicitModel::new();
    model.add_operation("Add", Add::new(), Some(&["A", "B"])).unwrap();
    assert!(matches!(
        model.remove_input("Add", 3),
        Err(ModelError::InputIndexOutOfRange { num_inputs: 2, index: 3, .. })
    ));
    assert!(matches!(model.remove_input("Nope", 0), Err(ModelError::MissingTag(t)) if t == "Nope"));
    model.remove_input("Add", 1).unwrap();
    assert_eq!(model.get_inputs("Add").unwrap(), &vec![Some("A".to_string()), None]);
}

#[test]
fn model_missing_dependency_is_reported() {
    let mut model: ImplicitModel<f64> = ImplicitModel::new();
    model.add_constant("Value", 1.0).unwrap();
    model.add_operation("Add", Add::new(), Some(&["Value", "Ghost"])).unwrap();
    assert!(matches!(model.evaluate_at("Add", 0.0, 0.0, 0.0), Err(ModelError::MissingTag(t)) if t == "Ghost"));
}

#[test]
fn model_cycle_from_input_list_is_reported() {
    let mut model: ImplicitModel<f64> = ImplicitModel::new();
    model.add_constant("Value", 1.0).unwrap();
    model.add_operation("A", Add::new(), Some(&["Value", "B"])).unwrap();
    model.add_operation("B", Add::new(), Some(&["Value", "A"])).unwrap();
    match model.evaluate_at("A", 0.0, 0.0, 0.0) {
        Err(ModelError::CyclicDependency(tag)) => assert_eq!(tag, "Value"),
        _ => panic!("expected a cyclic dependency"),
    }
}

#[test]
fn model_add_input_to_component_without_inputs() {
    let mut model: ImplicitModel<f64> = ImplicitModel::new();
    model.add_constant("A", 1.0).unwrap();
    model.add_constant("B", 2.0).unwrap();
    assert!(matches!(model.add_input("A", "B", 0), Err(ModelError::MissingTag(t)) if t == "A"));
    assert!(matches!(model.add_input("A", "C", 0), Err(ModelError::MissingTag(t)) if t == "C"));
}

#[test]
fn model_add_input_from_unwired_operation() {
    let mut model: ImplicitModel<f64> = ImplicitModel::new();
    model.add_constant("Value", 1.0).unwrap();
    model.add_operation("Add", Add::new(), None).unwrap();
    model.add_operation("Add2", Add::new(), None).unwrap();
    assert!(model.add_input("Add2", "Add", 0).is_ok());
    assert_eq!(model.get_inputs("Add2"), Some(&vec![Some("Add".to_string()), None]));
    assert_eq!(model.get_inputs("Add"), Some(&vec![None, None]));
}

#[test]
fn model_add_operation_input_count_error_fields() {
    let mut model: ImplicitModel<f64> = ImplicitModel::new();
    model.add_constant("Value", 1.0).unwrap();
    match model.add_operation("Add", Add::new(), Some(&["Value"])) {
        Err(ModelError::IncorrectInputCount { component, num_inputs, count }) => {
            assert_eq!(component, "Add");
            assert_eq!(num_inputs, 2);
            assert_eq!(count, 1);
        }
        _ => panic!("expected an incorrect input count"),
    }
    assert!(model.get_component("Add").is_none());
    assert!(model.get_inputs("Add").is_none());
    assert_eq!(model.get_default_output(), Some("Value"));
}

#[test]
fn model_remove_input_at_input_count() {
    let mut model: ImplicitModel<f64> = ImplicitModel::new();
    model.add_operation("Add", Add::new(), None).unwrap();
    match model.remove_input("Add", 2) {
        Err(ModelError::InputIndexOutOfRange { component, num_inputs, index }) => {
            assert_eq!(component, "Add");
            assert_eq!(num_inputs, 2);
            assert_eq!(index, 2);
        }
        _ => panic!("expected an index out of range"),
    }
    assert_eq!(model.get_inputs("Add"), Some(&vec![None, None]));
}

#[test]
fn model_mutual_inputs_report_a_cycle() {
    let mut model: ImplicitModel<f64> = ImplicitModel::new();
    model.add_operation("A", Add::new(), Some(&["B", "B"])).unwrap();
    model.add_operation("B", Add::new(), Some(&["A", "A"])).unwrap();
    assert!(matches!(model.evaluate_at("A", 0.0, 0.0, 0.0), Err(ModelError::CyclicDependency(_))));
    assert!(matches!(model.evaluate_at("B", 0.0, 0.0, 0.0), Err(ModelError::CyclicDependency(_))));
}

#[test]
fn model_get_component_mut_changes_constant() {
    let mut model: ImplicitModel<f64> = ImplicitModel::new();
    model.add_constant("Value", 1.0).unwrap();
    model.get_component_mut("Value").unwrap().set_parameter("Value", Data::Value(4.0));
    assert!(matches!(model.get_component("Value"), Some(ModelComponent::Constant(v)) if *v == 4.0));
    assert_eq!(model.evaluate_at("Value", 0.0, 0.0, 0.0).unwrap(), 4.0);
    assert!(model.get_component_mut("Other").is_none());
    assert_eq!(model.all_components().len(), 1);
}

#[test]
fn model_add_component_under_a_free_tag() {
    let mut model: ImplicitModel<f64> = ImplicitModel::new();
    assert_eq!(model.add_constant("Value", 1.0).unwrap(), "Value");
    assert_eq!(model.add_component("Value", ModelComponent::Constant(2.0)).unwrap(), "Value_1");
    assert!(matches!(model.get_component("Value"), Some(ModelComponent::Constant(v)) if *v == 1.0));
    assert!(matches!(model.get_component("Value_1"), Some(ModelComponent::Constant(v)) if *v == 2.0));
    assert_eq!(model.get_default_output(), Some("Value_1"));
}
