mod coordinates;
mod function_components;
mod schwarz;

pub use coordinates::{CoordinateValue, XDomain, XYZValue, YDomain, ZDomain};
pub use schwarz::SchwarzP;
pub use function_components::{function_component_name, function_components, FunctionComponent};
