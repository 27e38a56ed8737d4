/// Arithmetic operations on values.
pub mod math;
/// Boolean and shape operations on distance values.
pub mod shape;
mod operation_components;

pub use operation_components::{operation_component_name, operation_components, OperationComponent};
