mod dense_field;
mod sparse_config;
/// Index arithmetic and value operations of dense grids.
pub mod grid;
/// Access to the values, points and cells of fields, and walks over grids.
pub mod field_iterator;

pub use dense_field::{sample_point, DenseField};
/// Sampling of models over grids.
pub mod sampler;
pub use sparse_config::{block_side, block_total, BlockSize, SamplingMode, SparseFieldConfig};
/// Sparse fields: a grid of internal nodes whose cells are sampled only where needed.
pub mod sparse_field;
pub use sparse_field::SparseField;
