use vstd::prelude::*;
use num_traits::Float;

use super::Vec3;

verus! {

/// A transformation made of a translation and a rotation about the three axes.
#[derive(Debug, Clone, Copy)]
pub struct Transform<T> {
    pub translation: Vec3<T>,
    pub rotation: Vec3<T>,
}

impl<T: Float> Transform<T> {
    /// New transformation from a translation and a rotation.
    pub fn new(translation: Vec3<T>, rotation: Vec3<T>) -> (t: Transform<T>)
        ensures
            t.translation == translation && t.rotation == rotation,
    {
        Transform { translation, rotation }
    }

    /// A transformation that only translates: its rotation is the origin.
    pub fn translation(translation: Vec3<T>) -> (t: Transform<T>)
        ensures
            t.translation == translation,
    {
        Transform::new(translation, Vec3::origin())
    }

    /// A transformation that only rotates: its translation is the origin.
    pub fn rotation(rotation: Vec3<T>) -> (t: Transform<T>)
        ensures
            t.rotation == rotation,
    {
        Transform::new(Vec3::origin(), rotation)
    }
}

} // verus!
