use vstd::prelude::*;
use num_traits::Float;

use super::{BoundingBox, Transform, Vec3};

verus! {

/// An object with a bounding box.
pub trait Bounded<T> {
    /// The [`BoundingBox`] containing the object.
    fn bounds(&self) -> BoundingBox<T> where T: Float;
}

/// Closest point queries, used to store objects in an octree.
pub trait SpatialQuery<T>: Copy + Bounded<T> {
    /// The closest point on the object to a query point.
    fn closest_point(&self, query_point: &Vec3<T>) -> Vec3<T> where T: Float;

    /// The object is of the form that [`SpatialQuery::default`] gives.
    spec fn is_default(&self) -> bool;

    /// A default instance of the object.
    fn default() -> (d: Self) where T: Float
        ensures
            d.is_default(),
    ;
}

/// Closest point queries that also give the normal at the closest point, so that a
/// point can be classified as inside or outside.
pub trait SignedQuery<T>: SpatialQuery<T> {
    /// The closest point and the normal there.
    fn closest_point_with_normal(&self, query_point: &Vec3<T>) -> (Vec3<T>, Vec3<T>) where T: Float;
}

/// An object that can be transformed.
pub trait Transformable<T>: Sized {
    /// The transformed object.
    fn transform(&self, transform: Transform<T>) -> Self where T: Float;
}

/// Signed distance from a point to an object: negative inside, positive outside.
pub trait SignedDistance<T> {
    /// Signed distance to the location `(x, y, z)`.
    fn signed_distance(&self, x: T, y: T, z: T) -> T where T: Float;
}

} // verus!
