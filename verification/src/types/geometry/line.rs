use vstd::prelude::*;
use num_traits::Float;

use crate::utils::float::{clamp, zero};
use super::traits::SignedDistance;
use super::Vec3;

verus! {

/// Line segment from a start point to an end point.
#[derive(Debug, Clone, Copy)]
pub struct Line<T> {
    pub start: Vec3<T>,
    pub end: Vec3<T>,
}

impl<T> Line<T> {
    /// Create a new line from a start and an end point.
    pub fn new(start: Vec3<T>, end: Vec3<T>) -> (l: Line<T>)
        ensures
            l.start == start && l.end == end,
    {
        Self { start, end }
    }
}

impl<T: Float> Line<T> {
    /// Distance from a point to the closest point on the line.
    pub fn distance_to(&self, point: Vec3<T>) -> T {
        self.closest_pt(point).distance_to_vec3(&point)
    }

    /// The closest point on the line to a point: the projection onto the line's
    /// direction, clamped to the segment.
    pub fn closest_pt(&self, pt: Vec3<T>) -> Vec3<T> {
        let v1 = pt.sub_vec(self.start);
        let v2 = self.end.sub_vec(self.start).normalize();
        let t = clamp(v1.dot(&v2), zero(), self.start.distance_to_vec3(&self.end));
        self.start.add_vec(v2.scale(t))
    }

    /// Length of the line.
    pub fn length(&self) -> T {
        self.start.distance_to_vec3(&self.end)
    }
}

impl<T> SignedDistance<T> for Line<T> {
    fn signed_distance(&self, x: T, y: T, z: T) -> T where T: Float {
        self.distance_to(Vec3::new(x, y, z))
    }
}

} // verus!
