use vstd::prelude::*;
use num_traits::{Float, FloatConst};

use crate::types::computation::traits::{ImplicitComponent, ImplicitFunction};
use crate::types::computation::{Data, DataType, Parameter};
use crate::utils::float::difference;
use crate::utils::text::str_eq;

use super::traits::SignedDistance;
use super::{Line, Vec3};

verus! {

/// A capsule: the points within a radius of a line segment.
#[derive(Debug, Clone, Copy)]
pub struct Capsule<T> {
    pub line: Line<T>,
    pub radius: T,
}

impl<T> Capsule<T> {
    /// Create a new capsule from its centre line and radius.
    pub fn new(line: Line<T>, radius: T) -> (c: Capsule<T>)
        ensures
            c.line == line && c.radius == radius,
    {
        Self { line, radius }
    }

    /// Create a new capsule from the ends of its centre line and its radius.
    pub fn from_points(start: Vec3<T>, end: Vec3<T>, radius: T) -> (c: Capsule<T>)
        ensures
            c.line.start == start && c.line.end == end && c.radius == radius,
    {
        Self { line: Line::new(start, end), radius }
    }
}

impl<T> SignedDistance<T> for Capsule<T> {
    fn signed_distance(&self, x: T, y: T, z: T) -> T where T: Float {
        difference(self.line.distance_to(Vec3::new(x, y, z)), self.radius)
    }
}

impl<T: Send + Sync> ImplicitFunction<T> for Capsule<T> {
    open spec fn kind(&self) -> &'static str {
        "Capsule"
    }

    fn eval(&self, x: T, y: T, z: T) -> T where T: Float + FloatConst {
        difference(self.line.distance_to(Vec3::new(x, y, z)), self.radius)
    }
}

impl<T: Send + Sync> ImplicitComponent<T> for Capsule<T> {
    fn parameters(&self) -> (params: Vec<Parameter>)
        ensures
            params@.len() == 3,
            params@[0].name@ == "Start"@ && params@[0].data_type == DataType::Vec3,
            params@[1].name@ == "End"@ && params@[1].data_type == DataType::Vec3,
            params@[2].name@ == "Radius"@ && params@[2].data_type == DataType::Value,
    {
        vec![
            Parameter::new("Start", DataType::Vec3),
            Parameter::new("End", DataType::Vec3),
            Parameter::new("Radius", DataType::Value),
        ]
    }

    fn set_parameter(&mut self, parameter_name: &str, data: Data<T>) where T: Float
        ensures
            data is Vec3 && parameter_name@ == "Start"@ ==> final(self).line.start == data->Vec3_0
                && final(self).line.end == old(self).line.end && final(self).radius == old(self).radius,
            data is Vec3 && parameter_name@ != "Start"@ && parameter_name@ == "End"@
                ==> final(self).line.end == data->Vec3_0 && final(self).line.start == old(self).line.start
                && final(self).radius == old(self).radius,
            data is Value && parameter_name@ == "Radius"@ ==> final(self).radius == data->Value_0
                && final(self).line == old(self).line,
            !(data is Vec3 && (parameter_name@ == "Start"@ || parameter_name@ == "End"@)) && !(data is Value
                && parameter_name@ == "Radius"@) ==> *final(self) == *old(self),
    {
        if !Parameter::set_vec3_from_param(parameter_name, &data, "Start", &mut self.line.start) {
            if !Parameter::set_vec3_from_param(parameter_name, &data, "End", &mut self.line.end) {
                Parameter::set_value_from_param(parameter_name, &data, "Radius", &mut self.radius);
            }
        }
    }

    fn read_parameter(&self, parameter_name: &str) -> (data: Option<Data<T>>) where T: Float
        ensures
            data == (if parameter_name@ == "Start"@ {
                Some(Data::Vec3(self.line.start))
            } else if parameter_name@ == "End"@ {
                Some(Data::Vec3(self.line.end))
            } else if parameter_name@ == "Radius"@ {
                Some(Data::Value(self.radius))
            } else {
                None
            }),
    {
        if str_eq(parameter_name, "Start") {
            Some(Data::Vec3(self.line.start))
        } else if str_eq(parameter_name, "End") {
            Some(Data::Vec3(self.line.end))
        } else if str_eq(parameter_name, "Radius") {
            Some(Data::Value(self.radius))
        } else {
            None
        }
    }

    fn name(&self) -> (n: &'static str)
        ensures
            n == self.kind(),
    {
        "Capsule"
    }
}

} // verus!
