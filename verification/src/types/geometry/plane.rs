use vstd::prelude::*;
use num_traits::{Float, FloatConst};

use crate::types::computation::traits::{ImplicitComponent, ImplicitFunction};
use crate::types::computation::{Data, DataType, Parameter};
use crate::utils::float::difference;
use crate::utils::text::str_eq;

use super::traits::SignedDistance;
use super::Vec3;

verus! {

/// Infinite plane, given by an origin point and a normal direction.
#[derive(Debug, Clone, Copy)]
pub struct Plane<T> {
    origin: Vec3<T>,
    normal: Vec3<T>,
}

impl<T: Float> Plane<T> {
    /// Create a new plane from an origin point and a normal; the normal is normalized.
    pub fn new(origin: Vec3<T>, normal: Vec3<T>) -> (p: Plane<T>)
        ensures
            p.origin_point() == origin,
    {
        Plane { origin, normal: normal.normalize() }
    }

    /// The global XY plane through the origin.
    pub fn xy() -> (p: Plane<T>)
        ensures
            p.origin_point().x == p.origin_point().y && p.origin_point().y == p.origin_point().z,
    {
        Plane { origin: Vec3::origin(), normal: Vec3::z_axis().normalize() }
    }

    /// The global YZ plane through the origin.
    pub fn yz() -> (p: Plane<T>)
        ensures
            p.origin_point().x == p.origin_point().y && p.origin_point().y == p.origin_point().z,
    {
        Plane { origin: Vec3::origin(), normal: Vec3::x_axis().normalize() }
    }

    /// The global XZ plane through the origin.
    pub fn xz() -> (p: Plane<T>)
        ensures
            p.origin_point().x == p.origin_point().y && p.origin_point().y == p.origin_point().z,
    {
        Plane { origin: Vec3::origin(), normal: Vec3::y_axis().normalize() }
    }

    /// The origin of the plane.
    pub fn origin(&self) -> (o: Vec3<T>)
        ensures
            o == self.origin_point(),
    {
        self.origin
    }

    /// The normal of the plane.
    pub fn normal(&self) -> (n: Vec3<T>)
        ensures
            n == self.normal_dir(),
    {
        self.normal
    }

    /// Signed distance from the location `(x, y, z)` to the plane: positive on the side
    /// the normal points to.
    pub fn signed_distance_coord(&self, x: T, y: T, z: T) -> T {
        self.normal.dot_coord(
            difference(x, self.origin.x),
            difference(y, self.origin.y),
            difference(z, self.origin.z),
        )
    }
}

impl<T> Plane<T> {
    /// The origin point, as a spec value.
    pub closed spec fn origin_point(self) -> Vec3<T> {
        self.origin
    }

    /// The normal direction, as a spec value.
    pub closed spec fn normal_dir(self) -> Vec3<T> {
        self.normal
    }
}

impl<T> SignedDistance<T> for Plane<T> {
    fn signed_distance(&self, x: T, y: T, z: T) -> T where T: Float {
        self.signed_distance_coord(x, y, z)
    }
}

impl<T: Send + Sync> ImplicitFunction<T> for Plane<T> {
    open spec fn kind(&self) -> &'static str {
        "Plane"
    }

    fn eval(&self, x: T, y: T, z: T) -> T where T: Float + FloatConst {
        self.signed_distance_coord(x, y, z)
    }
}

impl<T: Send + Sync> ImplicitComponent<T> for Plane<T> {
    fn parameters(&self) -> (params: Vec<Parameter>)
        ensures
            params@.len() == 2,
            params@[0].name@ == "Origin"@ && params@[0].data_type == DataType::Vec3,
            params@[1].name@ == "Normal"@ && params@[1].data_type == DataType::Vec3,
    {
        vec![Parameter::new("Origin", DataType::Vec3), Parameter::new("Normal", DataType::Vec3)]
    }

    fn set_parameter(&mut self, parameter_name: &str, data: Data<T>) where T: Float
        ensures
            data is Vec3 && parameter_name@ == "Origin"@ ==> final(self).origin_point() == data->Vec3_0
                && final(self).normal_dir() == old(self).normal_dir(),
            data is Vec3 && parameter_name@ != "Origin"@ && parameter_name@ == "Normal"@
                ==> final(self).normal_dir() == data->Vec3_0 && final(self).origin_point() == old(self).origin_point(),
            !(data is Vec3 && (parameter_name@ == "Origin"@ || parameter_name@ == "Normal"@))
                ==> *final(self) == *old(self),
    {
        if !Parameter::set_vec3_from_param(parameter_name, &data, "Origin", &mut self.origin) {
            Parameter::set_vec3_from_param(parameter_name, &data, "Normal", &mut self.normal);
        }
    }

    fn read_parameter(&self, parameter_name: &str) -> (data: Option<Data<T>>) where T: Float
        ensures
            data == (if parameter_name@ == "Origin"@ {
                Some(Data::Vec3(self.origin_point()))
            } else if parameter_name@ == "Normal"@ {
                Some(Data::Vec3(self.normal_dir()))
            } else {
                None
            }),
    {
        if str_eq(parameter_name, "Origin") {
            Some(Data::Vec3(self.origin))
        } else if str_eq(parameter_name, "Normal") {
            Some(Data::Vec3(self.normal))
        } else {
            None
        }
    }

    fn name(&self) -> (n: &'static str)
        ensures
            n == self.kind(),
    {
        "Plane"
    }
}

} // verus!
