use imlet::types::computation::data::field_iterator::ValueIterator;
use imlet::types::computation::data::sampler::{DenseSampler, SparseSampler};
use imlet::types::computation::data::{BlockSize, SamplingMode, SparseFieldConfig};
use imlet::types::computation::functions::{CoordinateValue, XYZValue};
use imlet::types::computation::model::ImplicitModel;
use imlet::types::geometry::{BoundingBox, Vec3};

fn create_test_model() -> ImplicitModel<f32> {
    let mut model = ImplicitModel::new();
    model.add_function("z_coord", XYZValue::new(CoordinateValue::Z)).unwrap();
    model
}

fn create_test_bounds() -> BoundingBox<f32> {
    BoundingBox::new(Vec3::new(0.0, 0.0, 0.0), Vec3::new(10.0, 10.0, 10.0))
}

#[test]
fn test_dense_sampler_builder() {
    let bounds = create_test_bounds();
    let cell_size = 1.0;

    let sampler = DenseSampler::builder().with_bounds(bounds).with_cell_size(cell_size).build();
    assert!(sampler.is_ok());

    let sampler = DenseSampler::builder()
        .with_bounds(bounds)
        .with_cell_size(cell_size)
        .with_smoothing_iter(2)
        .with_smoothing_factor(0.5)
        .with_padding(true)
        .build();
    assert!(sampler.is_ok());

    let sampler = DenseSampler::<f32>::builder().build();
    assert!(sampler.is_err());

    let sampler = DenseSampler::builder().with_bounds(bounds).build();
    assert!(sampler.is_err());
}

#[test]
fn test_dense_sampler_field_operations() {
    let bounds = create_test_bounds();
    let model = create_test_model();
    let cell_size = 1.0;
    let mut sampler = DenseSampler::builder().with_bounds(bounds).with_cell_size(cell_size).build().unwrap();

    let field = sampler.sample_field(&model);
    assert!(field.is_ok());
}

#[test]
fn test_dense_sampler_with_smoothing() {
    let model = create_test_model();
    let bounds = create_test_bounds();
    let cell_size = 1.0;

    let mut sampler = DenseSampler::builder()
        .with_bounds(bounds)
        .with_cell_size(cell_size)
        .with_smoothing_iter(3)
        .with_smoothing_factor(0.1)
        .build()
        .expect("Failed to build sampler");

    sampler.sample_field(&model).expect("Failed to sample field");

    let field = sampler.field();
    assert!(field.iter_values().len() != 0);
}

#[test]
fn test_dense_sampler_with_padding() {
    let model = create_test_model();
    let bounds = create_test_bounds();
    let cell_size = 1.0;

    let mut sampler = DenseSampler::builder()
        .with_bounds(bounds)
        .with_cell_size(cell_size)
        .with_padding(true)
        .build()
        .expect("Failed to build sampler");

    sampler.sample_field(&model).expect("Failed to sample field");

    let field = sampler.field();
    assert!(field.iter_values().len() != 0);
}

#[test]
fn test_sampler_invalid_component() {
    let bounds = create_test_bounds();
    let model = ImplicitModel::new();

    let mut dense_sampler =
        DenseSampler::builder().with_bounds(bounds).with_cell_size(1.0).build().expect("Failed to build dense sampler");

    let dense_result = dense_sampler.sample_field(&model);
    assert!(dense_result.is_err());

    let config = SparseFieldConfig {
        internal_size: BlockSize::Size8,
        leaf_size: BlockSize::Size4,
        sampling_mode: SamplingMode::CENTRE,
        cell_size: 1.0,
    };

    let mut sparse_sampler = SparseSampler::builder()
        .with_bounds(bounds)
        .with_config(config)
        .build()
        .expect("Failed to build sparse sampler");

    let sparse_result = sparse_sampler.sample_field(&model);
    assert!(sparse_result.is_err());
}

#[test]
fn dense_sampler_samples_coordinate_values() {
    let model = create_test_model();
    let bounds = BoundingBox::new(Vec3::new(0.0, 0.0, 0.0), Vec3::new(2.0, 2.0, 2.0));
    let mut sampler = DenseSampler::builder().with_bounds(bounds).with_cell_size(1.0).build().unwrap();
    let field = sampler.sample_field(&model).unwrap();
    let values = field.copy_data();
    assert_eq!(values.len(), 27);
    for (index, value) in values.iter().enumerate() {
        assert!((value - (index / 9) as f32).abs() < 1e-6);
    }
}

#[test]
fn test_sparse_sampler_builder() {
    let bounds = create_test_bounds();
    let config = SparseFieldConfig {
        internal_size: BlockSize::Size64,
        leaf_size: BlockSize::Size4,
        sampling_mode: SamplingMode::CENTRE,
        cell_size: 1.0,
    };

    let sampler = SparseSampler::builder().with_bounds(bounds).with_config(config).build();
    assert!(sampler.is_ok());

    let sampler = SparseSampler::builder()
        .with_bounds(bounds)
        .with_config(config)
        .with_max_val(0.5)
        .with_min_val(-0.5)
        .build();
    assert!(sampler.is_ok());

    let sampler = SparseSampler::<f32>::builder().with_config(config).build();
    assert!(sampler.is_err());

    let sampler = SparseSampler::builder().with_bounds(bounds).build();
    assert!(sampler.is_err());
}

#[test]
fn test_sparse_sampler_field_operations() {
    let bounds = create_test_bounds();
    let model = create_test_model();
    let config = SparseFieldConfig {
        internal_size: BlockSize::Size64,
        leaf_size: BlockSize::Size4,
        sampling_mode: SamplingMode::CENTRE,
        cell_size: 1.0,
    };

    let mut sampler = SparseSampler::builder().with_bounds(bounds).with_config(config).build().unwrap();

    let field = sampler.sample_field(&model);
    assert!(field.is_ok());
}

#[test]
fn test_sparse_sampler_different_block_sizes() {
    let bounds = create_test_bounds();
    let model = create_test_model();

    let config_small = SparseFieldConfig {
        internal_size: BlockSize::Size8,
        leaf_size: BlockSize::Size2,
        sampling_mode: SamplingMode::CENTRE,
        cell_size: 1.0,
    };

    let mut sampler_small = SparseSampler::builder()
        .with_bounds(bounds)
        .with_config(config_small)
        .build()
        .expect("Failed to build sampler");

    sampler_small.sample_field(&model).expect("Failed to sample field with small blocks");

    let config_large = SparseFieldConfig {
        internal_size: BlockSize::Size32,
        leaf_size: BlockSize::Size8,
        sampling_mode: SamplingMode::CENTRE,
        cell_size: 1.0,
    };

    let mut sampler_large = SparseSampler::builder()
        .with_bounds(bounds)
        .with_config(config_large)
        .build()
        .expect("Failed to build sampler");

    sampler_large.sample_field(&model).expect("Failed to sample field with large blocks");

    assert!(sampler_small.field().iter_values().len() != 0);
    assert!(sampler_large.field().iter_values().len() != 0);
}

#[test]
fn test_sparse_sampler_sampling_modes() {
    let bounds = create_test_bounds();
    let model = create_test_model();

    let config_centre = SparseFieldConfig {
        internal_size: BlockSize::Size8,
        leaf_size: BlockSize::Size4,
        sampling_mode: SamplingMode::CENTRE,
        cell_size: 1.0,
    };

    let mut sampler_centre = SparseSampler::builder()
        .with_bounds(bounds)
        .with_config(config_centre)
        .build()
        .expect("Failed to build sampler");

    sampler_centre.sample_field(&model).expect("Failed to sample field with CENTRE mode");

    let config_corners = SparseFieldConfig {
        internal_size: BlockSize::Size8,
        leaf_size: BlockSize::Size4,
        sampling_mode: SamplingMode::CORNERS,
        cell_size: 1.0,
    };

    let mut sampler_corners = SparseSampler::builder()
        .with_bounds(bounds)
        .with_config(config_corners)
        .build()
        .expect("Failed to build sampler");

    sampler_corners.sample_field(&model).expect("Failed to sample field with CORNERS mode");

    assert!(sampler_centre.field().iter_values().len() != 0);
    assert!(sampler_corners.field().iter_values().len() != 0);
}

#[test]
fn sparse_sampler_samples_near_plane_only() {
    // The z coordinate is near zero only in the lowest layer of cells.
    let bounds = create_test_bounds();
    let model = create_test_model();
    let config = SparseFieldConfig {
        internal_size: BlockSize::Size8,
        leaf_size: BlockSize::Size4,
        sampling_mode: SamplingMode::CENTRE,
        cell_size: 1.0,
    };
    let mut sampler = SparseSampler::builder().with_bounds(bounds).with_config(config).build().unwrap();
    let field = sampler.sample_field(&model).unwrap();
    let values = field.iter_values();
    assert!(!values.is_empty());
    assert!(values.iter().all(|v| *v >= 0.0 && *v <= 3.0 + 1e-4));
}

#[test]
fn test_dense_sampler_builder_error_messages() {
    let bounds = create_test_bounds();
    let missing_bounds = DenseSampler::<f64>::builder().with_cell_size(1.0).build();
    assert!(matches!(missing_bounds, Err(e) if e == "bounds is required"));
    let missing_cell_size = DenseSampler::builder().with_bounds(bounds).build();
    assert!(matches!(missing_cell_size, Err(e) if e == "cell size is required"));
    let inverted = BoundingBox::new(Vec3::new(10.0, 10.0, 10.0), Vec3::new(0.0, 0.0, 0.0));
    let no_grid = DenseSampler::builder().with_bounds(inverted).with_cell_size(1.0).build();
    assert!(matches!(no_grid, Err(e) if e.starts_with("Failed to get point count from bounds")));
}
