use vstd::prelude::*;
use num_traits::{Float, FloatConst};

use crate::types::computation::traits::{ImplicitComponent, ImplicitFunction};
use crate::types::computation::{Data, DataType, Parameter};
use crate::utils::float::{asin, clamp, cos, from_usize, min, negate, one, pi, product, quotient, sum};
use crate::utils::text::str_eq;

verus! {

/// The Schwarz P triply periodic surface, with a period length per axis. Linearized, the
/// value approximates a distance to the surface.
#[derive(Debug, Clone, Copy)]
pub struct SchwarzP<T> {
    pub length_x: T,
    pub length_y: T,
    pub length_z: T,
    pub linear: bool,
}

impl<T: Float> SchwarzP<T> {
    /// Create the surface from the period lengths along each axis.
    pub fn new(length_x: T, length_y: T, length_z: T, linear: bool) -> (f: Self)
        ensures
            f == (SchwarzP { length_x, length_y, length_z, linear }),
    {
        Self { length_x, length_y, length_z, linear }
    }

    /// Create the surface with the same period length along every axis.
    pub fn with_equal_spacing(length: T, linear: bool) -> (f: Self)
        ensures
            f == (SchwarzP { length_x: length, length_y: length, length_z: length, linear }),
    {
        Self { length_x: length, length_y: length, length_z: length, linear }
    }
}

impl<T: Send + Sync> ImplicitFunction<T> for SchwarzP<T> {
    open spec fn kind(&self) -> &'static str {
        "SchwarzP"
    }

    fn eval(&self, x: T, y: T, z: T) -> T where T: Float + FloatConst {
        let two: T = from_usize(2);
        let angle_x = product(two, quotient(product(pi(), x), self.length_x));
        let angle_y = product(two, quotient(product(pi(), y), self.length_y));
        let angle_z = product(two, quotient(product(pi(), z), self.length_z));
        let normalized_distance = sum(sum(cos(angle_x), cos(angle_y)), cos(angle_z));
        let scale = quotient(min(min(self.length_x, self.length_y), self.length_z), two);
        if self.linear {
            let linear_distance = quotient(
                asin(clamp(normalized_distance, negate(one()), one())),
                quotient(pi(), two),
            );
            product(scale, linear_distance)
        } else {
            product(scale, normalized_distance)
        }
    }
}

impl<T: Send + Sync> ImplicitComponent<T> for SchwarzP<T> {
    fn parameters(&self) -> (params: Vec<Parameter>)
        ensures
            params@.len() == 4,
            params@[0].name@ == "Length X"@ && params@[0].data_type == DataType::Value,
            params@[1].name@ == "Length Y"@ && params@[1].data_type == DataType::Value,
            params@[2].name@ == "Length Z"@ && params@[2].data_type == DataType::Value,
            params@[3].name@ == "Linearize"@ && params@[3].data_type == DataType::Boolean,
    {
        vec![
            Parameter::new("Length X", DataType::Value),
            Parameter::new("Length Y", DataType::Value),
            Parameter::new("Length Z", DataType::Value),
            Parameter::new("Linearize", DataType::Boolean),
        ]
    }

    fn set_parameter(&mut self, parameter_name: &str, data: Data<T>) where T: Float
        ensures
            final(self).length_x == (if data is Value && parameter_name@ == "Length X"@ {
                data->Value_0
            } else {
                old(self).length_x
            }),
            final(self).length_y == (if data is Value && parameter_name@ == "Length Y"@ {
                data->Value_0
            } else {
                old(self).length_y
            }),
            final(self).length_z == (if data is Value && parameter_name@ == "Length Z"@ {
                data->Value_0
            } else {
                old(self).length_z
            }),
            final(self).linear == (if data is Boolean && parameter_name@ == "Linearize"@ {
                data->Boolean_0
            } else {
                old(self).linear
            }),
    {
        proof {
            reveal_strlit("Length X");
            reveal_strlit("Length Y");
            reveal_strlit("Length Z");
            assert("Length X"@[7] != "Length Y"@[7]);
            assert("Length X"@[7] != "Length Z"@[7]);
            assert("Length Y"@[7] != "Length Z"@[7]);
        }
        if !Parameter::set_value_from_param(parameter_name, &data, "Length X", &mut self.length_x) {
            if !Parameter::set_value_from_param(parameter_name, &data, "Length Y", &mut self.length_y) {
                if !Parameter::set_value_from_param(parameter_name, &data, "Length Z", &mut self.length_z) {
                    Parameter::set_bool_from_param(parameter_name, &data, "Linearize", &mut self.linear);
                }
            }
        }
    }

    fn read_parameter(&self, parameter_name: &str) -> (data: Option<Data<T>>) where T: Float
        ensures
            data == (if parameter_name@ == "Length X"@ {
                Some(Data::Value(self.length_x))
            } else if parameter_name@ == "Length Y"@ {
                Some(Data::Value(self.length_y))
            } else if parameter_name@ == "Length Z"@ {
                Some(Data::Value(self.length_z))
            } else if parameter_name@ == "Linearize"@ {
                Some(Data::Boolean(self.linear))
            } else {
                None
            }),
    {
        if str_eq(parameter_name, "Length X") {
            Some(Data::Value(self.length_x))
        } else if str_eq(parameter_name, "Length Y") {
            Some(Data::Value(self.length_y))
        } else if str_eq(parameter_name, "Length Z") {
            Some(Data::Value(self.length_z))
        } else if str_eq(parameter_name, "Linearize") {
            Some(Data::Boolean(self.linear))
        } else {
            None
        }
    }

    fn name(&self) -> (n: &'static str)
        ensures
            n == self.kind(),
    {
        "SchwarzP"
    }
}

} // verus!
