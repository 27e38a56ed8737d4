mod computation_graph;
mod implicit_model;
mod keyed;
mod model_config;
mod model_component;
mod paths;

pub use implicit_model::{clear_source, list_view, opt_view, ImplicitModel, IMLET_VERSION};
pub use computation_graph::ComputationGraph;
pub use model_component::{ComponentId, ModelComponent};
pub use model_config::ModelConfig;
