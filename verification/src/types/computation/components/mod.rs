mod geometry_components;

pub use geometry_components::{geometry_component_name, public_geometry_components, GeometryComponent};
