mod bounding_box;
mod capsule;
mod geometry_collection;
mod line;
mod mesh;
mod octree;
mod plane;
mod sphere;
mod torus;
mod transform;
mod triangle;
mod vec3;
mod vec3i;

/// Traits for geometric queries.
pub mod traits;

pub use bounding_box::BoundingBox;
pub use capsule::Capsule;
pub use geometry_collection::GeometryCollection;
pub use line::Line;
pub use mesh::{incident_faces, Mesh};
pub use octree::{Octree, OctreeNode};
pub use plane::Plane;
pub use sphere::Sphere;
pub use torus::Torus;
pub use transform::Transform;
pub use triangle::{Triangle, TriangleFeature};
pub use vec3::Vec3;
pub use vec3i::Vec3i;
