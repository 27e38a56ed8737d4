use imlet::types::computation::model::{ComputationGraph, ModelComponent};
use imlet::types::computation::operations::math::Add;
use imlet::types::computation::operations::shape::BooleanDifference;
use imlet::types::computation::operations::{operation_components, OperationComponent};
use imlet::types::computation::functions::{function_components, FunctionComponent};
use imlet::types::computation::components::{public_geometry_components, GeometryComponent};
use imlet::types::computation::data::DenseField;
use imlet::types::computation::ModelError;
use imlet::types::geometry::{BoundingBox, Sphere, Vec3};

#[test]
fn model_component_test_compute_constant() {
    let component: ModelComponent<f64> = ModelComponent::Constant(1.0);

    let value = component.compute(0.0, 0.0, 0.0, &[]);
    assert!((1.0 - value).abs() < 0.001);
}

#[test]
fn model_component_test_compute_function() {
    let function: Sphere<f64> = Sphere::new(Vec3::origin(), 1.0);
    let component = ModelComponent::Function(Box::new(function));

    assert!((-0.5 - component.compute(0.0, 0.5, 0.0, &[])).abs() < f64::EPSILON);
    assert!((0.5 - component.compute(0.0, 1.5, 0.0, &[])).abs() < f64::EPSILON);
}

#[test]
fn model_component_test_compute_operation() {
    let operation = Add::new();
    let component: ModelComponent<f64> = ModelComponent::Operation(Box::new(operation));

    assert!((2.0 - component.compute(0.0, 0.0, 0.0, &[1.0, 1.0])).abs() < f64::EPSILON);
}

#[test]
fn operation_components_test_all_operation_components_params() {
    let all_operations = operation_components();

    for &operation in all_operations.iter() {
        let mut component = operation.create_default::<f32>();
        let params = component.read_parameters();

        for (param, data) in params {
            component.set_parameter(param.name, data);
        }
    }
}

#[test]
fn test_all_function_components_params() {
    let all_functions = function_components();

    for &function in all_functions.iter() {
        if let Some(mut component) = function.create_default::<f32>() {
            let params = component.read_parameters();

            for (param, data) in params {
                component.set_parameter(param.name, data);
            }
        }
    }
}

#[test]
fn function_component_names_parse() {
    assert_eq!(FunctionComponent::parse("Sphere"), Ok(FunctionComponent::Sphere));
    assert_eq!("MeshFile".parse::<FunctionComponent>(), Ok(FunctionComponent::MeshFile));
    assert_eq!(FunctionComponent::parse("sphere"), Err(()));
    assert!(FunctionComponent::Gyroid.create_default::<f64>().is_none());
    assert!(matches!(FunctionComponent::Torus.create_default::<f64>(), Some(ModelComponent::Function(_))));
    assert!(matches!(OperationComponent::Remap.create_default::<f64>(), ModelComponent::Operation(_)));
}

#[test]
fn test_evaluate_model_function() {
    let size: f64 = 10.0;
    let cell_size = 2.5;
    let mut graph = ComputationGraph::new();
    let bounds = BoundingBox::new(Vec3::origin(), Vec3::new(size, size, size));

    let binding = ModelComponent::Function(Box::new(Sphere::new(Vec3::new(size / 2.0, size / 2.0, size / 2.0), size * 0.45)));

    graph.add_component(&binding, vec![]);

    let mut field = DenseField::new(Vec3::origin(), cell_size, DenseField::point_count(&bounds, cell_size).unwrap());

    field.sample_from_graph(&graph);

    assert_eq!(64, field.num_cells());
    assert_eq!(125, field.num_points());
}

#[test]
fn test_evaluate_model_function_non_uniform() {
    let size: f64 = 10.0;
    let cell_size = 2.5;
    let mut model = ComputationGraph::new();
    let bounds = BoundingBox::new(Vec3::origin(), Vec3::new(2.0 * size, 1.5 * size, size));

    let sphere = ModelComponent::Function(Box::new(Sphere::new(Vec3::new(size / 2.0, size / 2.0, size / 2.0), size * 0.50)));

    model.add_component(&sphere, vec![]);

    let mut field = DenseField::new(Vec3::origin(), cell_size, DenseField::point_count(&bounds, cell_size).unwrap());
    field.sample_from_graph(&model);
    assert_eq!(8 * 6 * 4, field.num_cells());
    assert_eq!(9 * 7 * 5, field.num_points());
}

#[test]
fn test_create_and_evaluate_model_with_function_operation() {
    let mut model = ComputationGraph::new();

    let sphere_component: ModelComponent<f64> = ModelComponent::Function(Box::new(Sphere::new(Vec3::origin(), 1.0)));
    let sphere_component2 = ModelComponent::Function(Box::new(Sphere::new(Vec3::origin(), 0.5)));

    let difference_component = ModelComponent::Operation(Box::new(BooleanDifference::new()));

    model.add_component(&sphere_component, vec![]);
    model.add_component(&sphere_component2, vec![]);
    model.add_component(&difference_component, vec![0.into(), 1.into()]);

    assert!(0.5 - model.evaluate_at_coord(0.0, 0.0, 0.0) < 0.001);
    assert!(model.evaluate_at_coord(0.5, 0.0, 0.0) < 0.001);
    assert!(model.evaluate_at_coord(1.0, 0.0, 0.0) < 0.001);
    assert!(model.evaluate_at_coord(0.0, 0.5, 0.0) < 0.001);
    assert!(model.evaluate_at_coord(0.0, 1.0, 0.0) < 0.001);
    assert!((-0.25 - model.evaluate_at_coord(0.75, 0.0, 0.0)).abs() < 0.001);
    assert!((-0.25 - model.evaluate_at_coord(0.0, 0.75, 0.0)).abs() < 0.001);
}

#[test]
fn test_evaluate_model_constant_operation() {
    let mut model = ComputationGraph::new();

    let constant: ModelComponent<f64> = ModelComponent::Constant(1.0);
    model.add_component(&constant, vec![]);
    let addition_component = ModelComponent::Operation(Box::new(Add::new()));
    model.add_component(&addition_component, vec![0.into(), 0.into()]);

    let result = model.evaluate_at_coord(0.0, 0.0, 0.0);
    assert!((2.0 - result).abs() < 0.0001);
}

#[test]
fn model_error_messages() {
    assert_eq!(
        ModelError::MissingTag("A".to_string()).message(),
        "Could not find component with tag A in model."
    );
    assert_eq!(
        ModelError::CyclicDependency("B".to_string()).message(),
        "Cyclic dependency detected for B. The component is depending on itself."
    );
    assert_eq!(
        ModelError::MissingInput { component: "C".to_string(), index: 1 }.message(),
        "Component C is missing an input at index 1. The model cannot be computed."
    );
}

#[test]
fn test_function_component_from_str() {
    let sphere: Result<FunctionComponent, ()> = "Sphere".parse();
    assert_eq!(sphere, Ok(FunctionComponent::Sphere));
    let mesh: Result<FunctionComponent, ()> = "MeshFile".parse();
    assert_eq!(mesh, Ok(FunctionComponent::MeshFile));
    let unknown: Result<FunctionComponent, ()> = "sphere".parse();
    assert_eq!(unknown, Err(()));
}

#[test]
fn model_error_messages_with_numbers() {
    assert_eq!(
        ModelError::IncorrectInputCount { component: "Add".to_string(), num_inputs: 2, count: 13 }.message(),
        "Incorrect inputs for component Add. The recieved number (13) is larger than the input count for the component (2)"
    );
    assert_eq!(
        ModelError::InputIndexOutOfRange { component: "Add".to_string(), num_inputs: 2, index: 10 }.message(),
        "Input index out of bounds for component Add. The recieved index (10) is larger than the input count for the component (2)"
    );
}

#[test]
fn dense_field_sample_selected_points() {
    let mut graph = ComputationGraph::new();
    let constant: ModelComponent<f64> = ModelComponent::Constant(3.0);
    graph.add_component(&constant, vec![]);
    let bounds = BoundingBox::new(Vec3::origin(), Vec3::new(2.0, 2.0, 2.0));
    let mut field = DenseField::new(Vec3::origin(), 1.0, DenseField::point_count(&bounds, 1.0).unwrap());
    let ids: std::collections::HashSet<usize> = [0usize, 5, 26].into_iter().collect();
    field.sample_selected_from_graph(&graph, &ids);
    let values = field.copy_data();
    assert_eq!(values.len(), 27);
    for (index, value) in values.iter().enumerate() {
        if ids.contains(&index) {
            assert_eq!(*value, 3.0);
        } else {
            assert_eq!(*value, 0.0);
        }
    }
}

#[test]
fn test_all_function_components() {
    for &function in function_components().iter() {
        if let Some(mut component) = function.create_default::<f32>() {
            let params = component.read_parameters();
            for (param, data) in params {
                component.set_parameter(param.name, data);
            }
        }
    }
}

#[test]
fn test_all_geometry_components() {
    for &geometry in public_geometry_components().iter() {
        if let Some(mut component) = geometry.create_default::<f32>() {
            let params = component.read_parameters();
            for (param, data) in params {
                component.set_parameter(param.name, data);
            }
        }
    }
}

#[test]
fn test_all_operation_components() {
    for &geometry in public_geometry_components().iter() {
        if let Some(mut component) = geometry.create_default::<f32>() {
            let params = component.read_parameters();
            for (param, data) in params {
                component.set_parameter(param.name, data);
            }
        }
    }
}

#[test]
fn create_default_gives_the_requested_kind() {
    let sphere = FunctionComponent::Sphere.create_default::<f64>().unwrap();
    assert_eq!(sphere.component_type_name(), "Sphere");
    let schwarz = FunctionComponent::SchwarzP.create_default::<f64>().unwrap();
    assert_eq!(schwarz.component_type_name(), "SchwarzP");
    let xyz = FunctionComponent::XYZValue.create_default::<f64>().unwrap();
    assert_eq!(xyz.component_type_name(), "XYZValue");
    assert!(FunctionComponent::MeshFile.create_default::<f64>().is_none());
    let boxed = GeometryComponent::Box.create_default::<f64>().unwrap();
    assert_eq!(boxed.component_type_name(), "BoundingBox");
    assert!(GeometryComponent::MeshFile.create_default::<f64>().is_none());
    for &kind in operation_components().iter() {
        let component = kind.create_default::<f64>();
        assert_eq!(OperationComponent::parse(component.component_type_name()), Ok(kind));
    }
    assert_eq!(OperationComponent::parse("Union"), Err(()));
}
