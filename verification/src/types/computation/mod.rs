/// Kinds of geometric component, created by kind.
pub mod components;
/// Discrete fields of values and their grids.
pub mod data;
mod model_error;
mod scalar_field;
mod parameter;

/// Computation models: components, graphs and model configuration.
pub mod model;
/// Coordinate and periodic functions.
pub mod functions;
/// Arithmetic and boolean operations on the values of other components.
pub mod operations;
/// Traits for custom implicit functions and operations.
pub mod traits;

pub use model_error::ModelError;
pub use scalar_field::ScalarField;
pub use parameter::{Data, DataType, Parameter};
