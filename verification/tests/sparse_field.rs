use imlet::types::computation::data::field_iterator::{CellIterator, CellValueIterator, PointIterator, ValueIterator};
use imlet::types::computation::data::sparse_field::{NodeHandle, SparseField};
use imlet::types::computation::data::{BlockSize, SamplingMode, SparseFieldConfig};
use imlet::types::computation::model::ImplicitModel;
use imlet::types::geometry::{BoundingBox, Vec3};

fn create_test_bounds() -> BoundingBox<f32> {
    BoundingBox::new(Vec3::new(0.0, 0.0, 0.0), Vec3::new(10.0, 10.0, 10.0))
}

fn create_test_model() -> ImplicitModel<f32> {
    let mut model = ImplicitModel::new();
    model.add_constant("constant", 1.0).unwrap();
    model
}

fn create_test_config() -> SparseFieldConfig<f32> {
    SparseFieldConfig {
        internal_size: BlockSize::Size8,
        leaf_size: BlockSize::Size4,
        sampling_mode: SamplingMode::CENTRE,
        cell_size: 1.0,
    }
}

fn has_leaf(field: &SparseField<f32>) -> bool {
    for node in field.nodes().iter() {
        for child in node.children().iter() {
            if let NodeHandle::Leaf(_) = child {
                return true;
            }
        }
    }
    false
}

#[test]
fn test_sparse_field_initialization() {
    let mut field = SparseField::new(create_test_config());
    let bounds = create_test_bounds();

    field.init_bounds(&bounds).unwrap();

    assert!(!field.is_empty());
}

#[test]
fn test_sparse_field_sampling() {
    let mut field = SparseField::new(create_test_config());
    let bounds = create_test_bounds();
    let model = create_test_model();

    field.init_bounds(&bounds).unwrap();
    let graph = model.compile("constant").unwrap();
    field.sample_from_graph(&graph, -0.1, 0.1).unwrap();

    assert!(!field.is_empty());
    assert!(has_leaf(&field), "No active leaf nodes found");
}

#[test]
fn test_sparse_field_iterators() {
    let mut field = SparseField::new(create_test_config());
    let bounds = create_test_bounds();
    let model = create_test_model();

    field.init_bounds(&bounds).unwrap();
    let graph = model.compile("constant").unwrap();
    field.sample_from_graph(&graph, -0.1, 0.1).unwrap();

    let values = field.iter_values();
    assert!(!values.is_empty(), "Value iterator should yield values");

    let cell_values = field.iter_cell_values();
    assert!(!cell_values.is_empty(), "Cell value iterator should yield values");
    assert_eq!(cell_values[0].len(), 8, "Each cell should have 8 corner values");

    let cells = field.iter_cells();
    assert!(!cells.is_empty(), "Cell iterator should yield cells");
}

#[test]
fn test_sampling_modes() {
    let mut field_centre = SparseField::new(SparseFieldConfig {
        internal_size: BlockSize::Size8,
        leaf_size: BlockSize::Size4,
        sampling_mode: SamplingMode::CENTRE,
        cell_size: 1.0,
    });
    let bounds = create_test_bounds();
    let model = create_test_model();

    field_centre.init_bounds(&bounds).unwrap();
    let graph = model.compile("constant").unwrap();
    field_centre.sample_from_graph(&graph, -0.1, 0.1).unwrap();

    let mut field_corners = SparseField::new(SparseFieldConfig {
        internal_size: BlockSize::Size8,
        leaf_size: BlockSize::Size4,
        sampling_mode: SamplingMode::CORNERS,
        cell_size: 1.0,
    });

    field_corners.init_bounds(&bounds).unwrap();
    field_corners.sample_from_graph(&graph, -0.1, 0.1).unwrap();

    assert!(!field_centre.is_empty());
    assert!(!field_corners.is_empty());
}

#[test]
fn test_block_sizes() {
    let sizes = [
        BlockSize::Size2,
        BlockSize::Size4,
        BlockSize::Size8,
        BlockSize::Size16,
        BlockSize::Size32,
        BlockSize::Size64,
    ];

    for &size in sizes.iter() {
        let expected = size.value().pow(3);
        let actual = size.total_size();
        assert_eq!(actual, expected, "Block total size should be cube of value: expected {expected}, got {actual}");
    }

    assert_eq!(BlockSize::Size2.value(), 2);
    assert_eq!(BlockSize::Size2.total_size(), 8);
    assert_eq!(BlockSize::Size64.value(), 64);
    assert_eq!(BlockSize::Size64.total_size(), 262144);
}

#[test]
fn test_error_handling() {
    let mut field = SparseField::new(create_test_config());
    let bounds = create_test_bounds();
    let model = create_test_model();

    let graph = model.compile("constant").unwrap();
    let result = field.sample_from_graph(&graph, -0.1, 0.1);
    assert!(result.is_err(), "Sampling without initialization should fail");

    field.init_bounds(&bounds).unwrap();
    let result = model.compile("nonexistent");
    assert!(result.is_err(), "Compiling invalid component should fail");
}

#[test]
fn init_bounds_covers_box_with_internal_nodes() {
    // Each node spans 8 cells of 3 steps: 24 units, so a box of 30 needs two per axis.
    let mut field = SparseField::new(create_test_config());
    let bounds = BoundingBox::new(Vec3::new(0.0, 0.0, 0.0), Vec3::new(30.0, 10.0, 50.0));
    field.init_bounds(&bounds).unwrap();
    assert_eq!(field.nodes().len(), 2 * 1 * 3);
    for node in field.nodes().iter() {
        assert_eq!(node.children().len(), 512);
    }
    assert!(field.n_active_nodes() > 0);
    assert!(field.n_active_nodes() <= 6 * 512);
}

#[test]
fn init_bounds_refuses_reversed_box() {
    let mut field = SparseField::new(create_test_config());
    let bounds = BoundingBox::new(Vec3::new(0.0, 0.0, 0.0), Vec3::new(-100.0, 10.0, 10.0));
    assert!(field.init_bounds(&bounds).is_err());
    assert!(field.is_empty());
}

#[test]
fn constant_model_fills_leaves_with_constant() {
    let mut field = SparseField::new(create_test_config());
    field.init_bounds(&create_test_bounds()).unwrap();
    let active_before = field.n_active_nodes();
    let model = create_test_model();
    let graph = model.compile("constant").unwrap();
    field.sample_from_graph(&graph, -0.1, 0.1).unwrap();
    assert_eq!(field.n_active_nodes(), active_before);
    let values = field.iter_values();
    assert!(values.iter().all(|v| *v == 1.0));
    let leaves = values.len() / 64;
    assert_eq!(values.len() % 64, 0);
    assert_eq!(field.iter_points().len(), leaves * 64);
    assert_eq!(field.iter_cells().len(), leaves * 27);
    assert_eq!(field.iter_cell_values().len(), leaves * 27);
}

#[test]
fn distant_constant_leaves_only_constants() {
    // A constant of 100 is far from [-0.1, 0.1] compared to the cell size: no leaves.
    let mut model = ImplicitModel::new();
    model.add_constant("far", 100.0f32).unwrap();
    let mut field = SparseField::new(create_test_config());
    field.init_bounds(&create_test_bounds()).unwrap();
    let graph = model.compile("far").unwrap();
    field.sample_from_graph(&graph, -0.1, 0.1).unwrap();
    assert!(!has_leaf(&field));
    assert!(field.iter_values().is_empty());
    for node in field.nodes().iter() {
        for child in node.children().iter() {
            if let NodeHandle::Constant(_, value) = child {
                assert_eq!(*value, 100.0);
            }
        }
    }
}

#[test]
fn init_node_grid_sets_counts_and_refuses_overflow() {
    let mut field = SparseField::new(create_test_config());
    field.init_node_grid(&create_test_bounds(), (2, 3, 1)).unwrap();
    assert_eq!(field.nodes().len(), 6);
    assert!(field.nodes().iter().all(|n| n.children().len() == 512));
    let before = field.nodes().len();
    assert!(field.init_node_grid(&create_test_bounds(), (usize::MAX, 2, 1)).is_err());
    assert_eq!(field.nodes().len(), before);
}
