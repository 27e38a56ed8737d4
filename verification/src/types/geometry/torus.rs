use vstd::prelude::*;
use num_traits::{Float, FloatConst};

use crate::types::computation::traits::{ImplicitComponent, ImplicitFunction};
use crate::types::computation::{Data, DataType, Parameter};
use crate::utils::float::{abs, difference, lt, negate, powi, sqrt, sum, zero};
use crate::utils::text::str_eq;

use super::Vec3;

verus! {

/// Distance function of a torus, given by a centre point, a major radius and a minor
/// radius. The torus lies around the y axis through the centre.
#[derive(Debug, Clone, Copy)]
pub struct Torus<T> {
    /// The centre point.
    pub centre: Vec3<T>,
    /// Major radius: from the centre to the centre line of the tube.
    pub r: T,
    /// Minor radius: the radius of the tube.
    pub t: T,
}

impl<T> Torus<T> {
    /// Create a new torus.
    pub fn new(centre: Vec3<T>, r: T, t: T) -> (torus: Torus<T>)
        ensures
            torus.centre == centre && torus.r == r && torus.t == t,
    {
        Torus { centre, r, t }
    }
}

impl<T: Send + Sync> ImplicitFunction<T> for Torus<T> {
    open spec fn kind(&self) -> &'static str {
        "Torus"
    }

    fn eval(&self, x: T, y: T, z: T) -> T where T: Float + FloatConst {
        let radial = sqrt(sum(powi(difference(x, self.centre.x), 2), powi(difference(z, self.centre.z), 2)));
        let squared_value = difference(
            sum(powi(difference(self.r, radial), 2), powi(difference(y, self.centre.y), 2)),
            powi(self.t, 2),
        );
        if lt(squared_value, zero()) {
            negate(sqrt(abs(squared_value)))
        } else {
            sqrt(squared_value)
        }
    }
}

impl<T: Send + Sync> ImplicitComponent<T> for Torus<T> {
    fn parameters(&self) -> (params: Vec<Parameter>)
        ensures
            params@.len() == 3,
            params@[0].name@ == "Centre"@ && params@[0].data_type == DataType::Vec3,
            params@[1].name@ == "Radius"@ && params@[1].data_type == DataType::Value,
            params@[2].name@ == "Thickness"@ && params@[2].data_type == DataType::Value,
    {
        vec![
            Parameter::new("Centre", DataType::Vec3),
            Parameter::new("Radius", DataType::Value),
            Parameter::new("Thickness", DataType::Value),
        ]
    }

    fn set_parameter(&mut self, parameter_name: &str, data: Data<T>) where T: Float
        ensures
            data is Vec3 && parameter_name@ == "Centre"@ ==> *final(self) == (Torus {
                centre: data->Vec3_0,
                ..*old(self)
            }),
            data is Value && parameter_name@ == "Radius"@ ==> *final(self) == (Torus {
                r: data->Value_0,
                ..*old(self)
            }),
            data is Value && parameter_name@ != "Radius"@ && parameter_name@ == "Thickness"@
                ==> *final(self) == (Torus { t: data->Value_0, ..*old(self) }),
            !(data is Vec3 && parameter_name@ == "Centre"@) && !(data is Value && (parameter_name@
                == "Radius"@ || parameter_name@ == "Thickness"@)) ==> *final(self) == *old(self),
    {
        if !Parameter::set_vec3_from_param(parameter_name, &data, "Centre", &mut self.centre) {
            if !Parameter::set_value_from_param(parameter_name, &data, "Radius", &mut self.r) {
                Parameter::set_value_from_param(parameter_name, &data, "Thickness", &mut self.t);
            }
        }
    }

    fn read_parameter(&self, parameter_name: &str) -> (data: Option<Data<T>>) where T: Float
        ensures
            data == (if parameter_name@ == "Centre"@ {
                Some(Data::Vec3(self.centre))
            } else if parameter_name@ == "Radius"@ {
                Some(Data::Value(self.r))
            } else if parameter_name@ == "Thickness"@ {
                Some(Data::Value(self.t))
            } else {
                None
            }),
    {
        if str_eq(parameter_name, "Centre") {
            Some(Data::Vec3(self.centre))
        } else if str_eq(parameter_name, "Radius") {
            Some(Data::Value(self.r))
        } else if str_eq(parameter_name, "Thickness") {
            Some(Data::Value(self.t))
        } else {
            None
        }
    }

    fn name(&self) -> (n: &'static str)
        ensures
            n == self.kind(),
    {
        "Torus"
    }
}

} // verus!
