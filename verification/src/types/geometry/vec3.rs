use vstd::prelude::*;
use num_traits::Float;

use crate::utils::float::{
    acos, clamp, difference, is_zero, negate, one, powi, product, quotient, sin, sqrt, sum,
    zero, from_usize, min as fmin, max as fmax, eq, cast,
};

use super::Transform;

verus! {

/// Vector or point with three coordinates.
#[derive(Debug, Clone, Copy)]
pub struct Vec3<T> {
    pub x: T,
    pub y: T,
    pub z: T,
}

impl<T> Vec3<T> {
    /// Create a new Vec3 from coordinates.
    pub fn new(x: T, y: T, z: T) -> (v: Vec3<T>)
        ensures
            v.x == x && v.y == y && v.z == z,
    {
        Self { x, y, z }
    }
}

impl<T: Float> Vec3<T> {
    /// Construct a new point at {0,0,0}: the three coordinates are the one value zero.
    pub fn origin() -> (v: Vec3<T>)
        ensures
            v.x == v.y && v.y == v.z,
    {
        let o: T = zero();
        Self { x: o, y: o, z: o }
    }

    /// Create a unit X-axis: y and z are the one value zero.
    pub fn x_axis() -> (v: Vec3<T>)
        ensures
            v.y == v.z,
    {
        let o: T = zero();
        Self { x: one(), y: o, z: o }
    }

    /// Create a unit Y-axis: x and z are the one value zero.
    pub fn y_axis() -> (v: Vec3<T>)
        ensures
            v.x == v.z,
    {
        let o: T = zero();
        Self { x: o, y: one(), z: o }
    }

    /// Create a unit Z-axis: x and y are the one value zero.
    pub fn z_axis() -> (v: Vec3<T>)
        ensures
            v.x == v.y,
    {
        let o: T = zero();
        Self { x: o, y: o, z: one() }
    }

    /// Component-wise minimum with another point.
    pub fn min(&self, other: &Vec3<T>) -> Vec3<T> {
        Vec3::new(fmin(self.x, other.x), fmin(self.y, other.y), fmin(self.z, other.z))
    }

    /// Component-wise maximum with another point.
    pub fn max(&self, other: &Vec3<T>) -> Vec3<T> {
        Vec3::new(fmax(self.x, other.x), fmax(self.y, other.y), fmax(self.z, other.z))
    }

    /// Euclidean distance to another point.
    pub fn distance_to_vec3(&self, pt: &Vec3<T>) -> T {
        sqrt(self.distance_to_vec3_squared(pt))
    }

    /// Euclidean distance to the location `(x, y, z)`.
    pub fn distance_to_coord(&self, x: T, y: T, z: T) -> T {
        sqrt(self.distance_to_coord_squared(x, y, z))
    }

    /// Squared euclidean distance to another point.
    pub fn distance_to_vec3_squared(&self, pt: &Vec3<T>) -> T {
        self.distance_to_coord_squared(pt.x, pt.y, pt.z)
    }

    /// Squared euclidean distance to the location `(x, y, z)`.
    pub fn distance_to_coord_squared(&self, x: T, y: T, z: T) -> T {
        let dx = powi(difference(self.x, x), 2);
        let dy = powi(difference(self.y, y), 2);
        let dz = powi(difference(self.z, z), 2);
        sum(sum(dx, dy), dz)
    }

    /// Linear interpolation between two points, with the parameter clamped to \[0, 1\].
    pub fn interpolate(start: &Vec3<T>, end: &Vec3<T>, t: T) -> Vec3<T> {
        let clamped = clamp(t, zero(), one());
        Self {
            x: sum(start.x, product(clamped, difference(end.x, start.x))),
            y: sum(start.y, product(clamped, difference(end.y, start.y))),
            z: sum(start.z, product(clamped, difference(end.z, start.z))),
        }
    }

    /// Dot product with another vector.
    pub fn dot(&self, rhs: &Vec3<T>) -> T {
        sum(sum(product(self.x, rhs.x), product(self.y, rhs.y)), product(self.z, rhs.z))
    }

    /// Dot product with the vector `(x, y, z)`.
    pub fn dot_coord(&self, x: T, y: T, z: T) -> T {
        sum(sum(product(self.x, x), product(self.y, y)), product(self.z, z))
    }

    /// Cross product with another vector.
    pub fn cross(&self, rhs: &Vec3<T>) -> Vec3<T> {
        Self {
            x: difference(product(self.y, rhs.z), product(self.z, rhs.y)),
            y: difference(product(self.z, rhs.x), product(self.x, rhs.z)),
            z: difference(product(self.x, rhs.y), product(self.y, rhs.x)),
        }
    }

    /// Angle between two vectors; `None` when either has zero length.
    pub fn angle(&self, rhs: &Vec3<T>) -> Option<T> {
        let dot = self.dot(rhs);
        let len_self = self.magnitude();
        let len_other = rhs.magnitude();
        if is_zero(len_self) || is_zero(len_other) {
            None
        } else {
            let cosine = clamp(quotient(dot, product(len_self, len_other)), negate(one()), one());
            Some(acos(cosine))
        }
    }

    /// Length of the vector (distance to the origin).
    pub fn magnitude(&self) -> T {
        self.distance_to_coord(zero(), zero(), zero())
    }

    /// Multiply every coordinate by a scalar.
    pub fn scale(self, scalar: T) -> Vec3<T> {
        Vec3 { x: product(self.x, scalar), y: product(self.y, scalar), z: product(self.z, scalar) }
    }

    /// The vector scaled to unit length.
    pub fn normalize(&self) -> Vec3<T> {
        self.scale(quotient(one(), self.magnitude()))
    }

    /// Spherical linear interpolation between the directions of two vectors, with the
    /// parameter clamped to \[0, 1\].
    pub fn slerp(start: Vec3<T>, end: Vec3<T>, t: T) -> Vec3<T> {
        let clamped = clamp(t, zero(), one());
        let start = start.normalize();
        let end = end.normalize();
        let dot = clamp(start.dot(&end), negate(one()), one());
        let theta = acos(dot);
        let sin_theta = sin(theta);
        if eq(sin_theta, zero()) {
            return start.scale(difference(one(), clamped)).add_vec(end.scale(clamped));
        }
        let a = quotient(sin(product(difference(one(), clamped), theta)), sin_theta);
        let b = quotient(sin(product(clamped, theta)), sin_theta);
        start.scale(a).add_vec(end.scale(b))
    }

    /// The vector in another scalar type: `None` where a coordinate has no counterpart
    /// there.
    pub fn convert<Q: Float>(&self) -> Option<Vec3<Q>> {
        let x = match cast::<T, Q>(self.x) {
            Some(v) => v,
            None => {
                return None;
            },
        };
        let y = match cast::<T, Q>(self.y) {
            Some(v) => v,
            None => {
                return None;
            },
        };
        let z = match cast::<T, Q>(self.z) {
            Some(v) => v,
            None => {
                return None;
            },
        };
        Some(Vec3::new(x, y, z))
    }

    /// Apply a transformation: rotation about the axes, then translation.
    pub fn transform(&self, transform: Transform<T>) -> Vec3<T> {
        let rotated = self.rotate(transform.rotation);
        rotated.add_vec(transform.translation)
    }

    /// Rotate by the angles in `rotation` about the x, y and z axes, in that order.
    pub(crate) fn rotate(&self, rotation: Vec3<T>) -> Vec3<T> {
        let (sin_x, cos_x) = (sin(rotation.x), crate::utils::float::cos(rotation.x));
        let (sin_y, cos_y) = (sin(rotation.y), crate::utils::float::cos(rotation.y));
        let (sin_z, cos_z) = (sin(rotation.z), crate::utils::float::cos(rotation.z));
        let rotated_x = Vec3 {
            x: self.x,
            y: difference(product(self.y, cos_x), product(self.z, sin_x)),
            z: sum(product(self.y, sin_x), product(self.z, cos_x)),
        };
        let rotated_y = Vec3 {
            x: sum(product(rotated_x.x, cos_y), product(rotated_x.z, sin_y)),
            y: rotated_x.y,
            z: sum(product(negate(rotated_x.x), sin_y), product(rotated_x.z, cos_y)),
        };
        Vec3::new(
            difference(product(rotated_y.x, cos_z), product(rotated_y.y, sin_z)),
            sum(product(rotated_y.x, sin_z), product(rotated_y.y, cos_z)),
            rotated_y.z,
        )
    }

    /// The default spatial tolerance, 1e-5.
    pub fn default_tolerance() -> T {
        quotient(one(), from_usize(100000))
    }

    /// Coordinate-wise sum with another vector.
    pub fn add_vec(self, rhs: Vec3<T>) -> Vec3<T> {
        Self { x: sum(self.x, rhs.x), y: sum(self.y, rhs.y), z: sum(self.z, rhs.z) }
    }

    /// Coordinate-wise difference with another vector.
    pub fn sub_vec(self, rhs: Vec3<T>) -> Vec3<T> {
        Self { x: difference(self.x, rhs.x), y: difference(self.y, rhs.y), z: difference(self.z, rhs.z) }
    }
}

} // verus!
