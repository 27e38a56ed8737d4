use vstd::prelude::*;
use num_traits::{Float, FloatConst};

use crate::types::computation::traits::{ImplicitComponent, ImplicitFunction};
use crate::types::computation::{Data, DataType, Parameter};
use crate::utils::float::difference;
use crate::utils::text::str_eq;

use super::traits::SignedDistance;
use super::{BoundingBox, Vec3};

verus! {

/// A sphere, defined by a centre point and a radius.
#[derive(Debug, Clone, Copy)]
pub struct Sphere<T> {
    pub centre: Vec3<T>,
    pub radius: T,
}

impl<T> Sphere<T> {
    /// Create a new sphere.
    pub fn new(centre: Vec3<T>, radius: T) -> (s: Sphere<T>)
        ensures
            s.centre == centre && s.radius == radius,
    {
        Self { centre, radius }
    }

    /// Create a new sphere with its centre at `(x, y, z)`.
    pub fn at_coord(x: T, y: T, z: T, radius: T) -> (s: Sphere<T>)
        ensures
            s.centre == (Vec3 { x, y, z }) && s.radius == radius,
    {
        Self { centre: Vec3::new(x, y, z), radius }
    }
}

impl<T: Float> Sphere<T> {
    /// The bounding box of the sphere: the centre grown by the radius.
    pub fn bounds(&self) -> BoundingBox<T> {
        let r = Vec3::new(self.radius, self.radius, self.radius);
        BoundingBox::new(self.centre.sub_vec(r), self.centre.add_vec(r))
    }
}

impl<T> SignedDistance<T> for Sphere<T> {
    fn signed_distance(&self, x: T, y: T, z: T) -> T where T: Float {
        difference(self.centre.distance_to_coord(x, y, z), self.radius)
    }
}

impl<T: Send + Sync> ImplicitFunction<T> for Sphere<T> {
    open spec fn kind(&self) -> &'static str {
        "Sphere"
    }

    fn eval(&self, x: T, y: T, z: T) -> T where T: Float + FloatConst {
        difference(self.centre.distance_to_coord(x, y, z), self.radius)
    }
}

impl<T: Send + Sync> ImplicitComponent<T> for Sphere<T> {
    fn parameters(&self) -> (params: Vec<Parameter>)
        ensures
            params@.len() == 2,
            params@[0].name@ == "Centre"@ && params@[0].data_type == DataType::Vec3,
            params@[1].name@ == "Radius"@ && params@[1].data_type == DataType::Value,
    {
        vec![Parameter::new("Centre", DataType::Vec3), Parameter::new("Radius", DataType::Value)]
    }

    fn set_parameter(&mut self, parameter_name: &str, data: Data<T>) where T: Float
        ensures
            data is Vec3 && parameter_name@ == "Centre"@ ==> *final(self) == (Sphere {
                centre: data->Vec3_0,
                ..*old(self)
            }),
            data is Value && parameter_name@ == "Radius"@ ==> *final(self) == (Sphere {
                radius: data->Value_0,
                ..*old(self)
            }),
            !(data is Vec3 && parameter_name@ == "Centre"@) && !(data is Value && parameter_name@
                == "Radius"@) ==> *final(self) == *old(self),
    {
        if !Parameter::set_vec3_from_param(parameter_name, &data, "Centre", &mut self.centre) {
            Parameter::set_value_from_param(parameter_name, &data, "Radius", &mut self.radius);
        }
    }

    fn read_parameter(&self, parameter_name: &str) -> (data: Option<Data<T>>) where T: Float
        ensures
            data == (if parameter_name@ == "Centre"@ {
                Some(Data::Vec3(self.centre))
            } else if parameter_name@ == "Radius"@ {
                Some(Data::Value(self.radius))
            } else {
                None
            }),
    {
        if str_eq(parameter_name, "Centre") {
            Some(Data::Vec3(self.centre))
        } else if str_eq(parameter_name, "Radius") {
            Some(Data::Value(self.radius))
        } else {
            None
        }
    }

    fn name(&self) -> (n: &'static str)
        ensures
            n == self.kind(),
    {
        "Sphere"
    }
}

} // verus!
