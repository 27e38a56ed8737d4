use vstd::prelude::*;
use num_traits::Float;

use crate::types::computation::traits::{ImplicitComponent, ImplicitOperation};
use crate::types::computation::{Data, DataType, Parameter};
use crate::utils::float::{below, difference, from_usize, is_number, max, min, negate, ordered, quotient, sum};
use crate::utils::text::str_eq;

verus! {

/// Union of two shapes: the smaller of their distances.
#[derive(Debug, Clone, Copy)]
pub struct BooleanUnion {}

impl BooleanUnion {
    /// Create the operation.
    pub fn new() -> Self {
        Self {}
    }
}

impl Default for BooleanUnion {
    fn default() -> (op: Self)
        ensures
            op == (BooleanUnion {}),
    {
        Self::new()
    }
}

impl<T> ImplicitOperation<T> for BooleanUnion {
    open spec fn kind(&self) -> &'static str {
        "BooleanUnion"
    }

    open spec fn input_count(&self) -> nat {
        2
    }

    /// The union of two shapes: the smaller of their distances, where both are numbers.
    fn eval(&self, inputs: &[T]) -> (value: T) where T: Float
        ensures
            value == inputs@[0] || value == inputs@[1],
            ordered::<T>() && is_number(inputs@[0]) && is_number(inputs@[1]) ==> !below(inputs@[0], value) && !below(
                inputs@[1],
                value,
            ),
    {
        min(inputs[0], inputs[1])
    }

    fn inputs(&self) -> (names: Vec<&'static str>) {
        vec!["Shape A", "Shape B"]
    }
}

impl<T> ImplicitComponent<T> for BooleanUnion {
    fn name(&self) -> &'static str {
        "BooleanUnion"
    }
}

/// Intersection of two shapes: the larger of their distances.
#[derive(Debug, Clone, Copy)]
pub struct BooleanIntersection {}

impl BooleanIntersection {
    /// Create the operation.
    pub fn new() -> Self {
        Self {}
    }
}

impl Default for BooleanIntersection {
    fn default() -> (op: Self)
        ensures
            op == (BooleanIntersection {}),
    {
        Self::new()
    }
}

impl<T> ImplicitOperation<T> for BooleanIntersection {
    open spec fn kind(&self) -> &'static str {
        "BooleanIntersection"
    }

    open spec fn input_count(&self) -> nat {
        2
    }

    /// The intersection of two shapes: the larger of their distances, where both are
    /// numbers.
    fn eval(&self, inputs: &[T]) -> (value: T) where T: Float
        ensures
            value == inputs@[0] || value == inputs@[1],
            ordered::<T>() && is_number(inputs@[0]) && is_number(inputs@[1]) ==> !below(value, inputs@[0]) && !below(
                value,
                inputs@[1],
            ),
    {
        max(inputs[0], inputs[1])
    }

    fn inputs(&self) -> (names: Vec<&'static str>) {
        vec!["Shape A", "Shape B"]
    }
}

impl<T> ImplicitComponent<T> for BooleanIntersection {
    fn name(&self) -> &'static str {
        "BooleanIntersection"
    }
}

/// Difference of two shapes: the first with the second cut away.
#[derive(Debug, Clone, Copy)]
pub struct BooleanDifference {}

impl BooleanDifference {
    /// Create the operation.
    pub fn new() -> Self {
        Self {}
    }
}

impl Default for BooleanDifference {
    fn default() -> (op: Self)
        ensures
            op == (BooleanDifference {}),
    {
        Self::new()
    }
}

impl<T> ImplicitOperation<T> for BooleanDifference {
    open spec fn kind(&self) -> &'static str {
        "BooleanDifference"
    }

    open spec fn input_count(&self) -> nat {
        2
    }

    /// The first shape without the second: the larger of the first distance and the
    /// negated second one, where both are numbers.
    fn eval(&self, inputs: &[T]) -> (value: T) where T: Float
        ensures
            ordered::<T>() && is_number(inputs@[0]) && is_number(value) ==> !below(value, inputs@[0]),
    {
        proof {
            if ordered::<T>() {
                reveal(vstd::laws_cmp::obeys_partial_cmp_spec_properties);
            }
        }
        max(inputs[0], negate(inputs[1]))
    }

    fn inputs(&self) -> (names: Vec<&'static str>) {
        vec!["Base Shape", "Subtract Shape"]
    }
}

impl<T> ImplicitComponent<T> for BooleanDifference {
    fn name(&self) -> &'static str {
        "BooleanDifference"
    }
}

/// Offsets a shape outwards by a distance.
#[derive(Debug, Clone, Copy)]
pub struct Offset<T> {
    distance: T,
}

impl<T> Offset<T> {
    /// The offset distance.
    pub closed spec fn distance(self) -> T {
        self.distance
    }

    /// Create the operation with an offset distance.
    pub fn new(offset_distance: T) -> (op: Self)
        ensures
            op.distance() == offset_distance,
    {
        Self { distance: offset_distance }
    }
}

impl<T: Send + Sync> ImplicitOperation<T> for Offset<T> {
    open spec fn kind(&self) -> &'static str {
        "Offset"
    }

    open spec fn input_count(&self) -> nat {
        1
    }

    fn eval(&self, inputs: &[T]) -> T where T: Float {
        difference(inputs[0], self.distance)
    }

    fn inputs(&self) -> (names: Vec<&'static str>) {
        vec!["Shape"]
    }
}

impl<T: Send + Sync> ImplicitComponent<T> for Offset<T> {
    fn parameters(&self) -> (params: Vec<Parameter>)
        ensures
            params@.len() == 1,
            params@[0].name@ == "Distance"@ && params@[0].data_type == DataType::Value,
    {
        vec![Parameter::new("Distance", DataType::Value)]
    }

    fn set_parameter(&mut self, parameter_name: &str, data: Data<T>) where T: Float
        ensures
            final(self).distance() == (if data is Value && parameter_name@ == "Distance"@ {
                data->Value_0
            } else {
                old(self).distance()
            }),
    {
        Parameter::set_value_from_param(parameter_name, &data, "Distance", &mut self.distance);
    }

    fn read_parameter(&self, parameter_name: &str) -> (data: Option<Data<T>>) where T: Float
        ensures
            data == (if parameter_name@ == "Distance"@ {
                Some(Data::Value(self.distance()))
            } else {
                None
            }),
    {
        if str_eq(parameter_name, "Distance") {
            Some(Data::Value(self.distance))
        } else {
            None
        }
    }

    fn name(&self) -> (n: &'static str)
        ensures
            n == self.kind(),
    {
        "Offset"
    }
}

/// Turns a shape into a shell of a thickness around its surface.
#[derive(Debug, Clone, Copy)]
pub struct Thickness<T> {
    t: T,
}

impl<T> Thickness<T> {
    /// The thickness of the shell.
    pub closed spec fn thickness(self) -> T {
        self.t
    }

    /// Create the operation with a thickness.
    pub fn new(thickness: T) -> (op: Self)
        ensures
            op.thickness() == thickness,
    {
        Self { t: thickness }
    }
}

impl<T: Send + Sync> ImplicitOperation<T> for Thickness<T> {
    open spec fn kind(&self) -> &'static str {
        "Thickness"
    }

    open spec fn input_count(&self) -> nat {
        1
    }

    fn eval(&self, inputs: &[T]) -> T where T: Float {
        let half = quotient(self.t, from_usize(2));
        max(difference(inputs[0], half), negate(sum(inputs[0], half)))
    }

    fn inputs(&self) -> (names: Vec<&'static str>) {
        vec!["Shape"]
    }
}

impl<T: Send + Sync> ImplicitComponent<T> for Thickness<T> {
    fn parameters(&self) -> (params: Vec<Parameter>)
        ensures
            params@.len() == 1,
            params@[0].name@ == "Thickness"@ && params@[0].data_type == DataType::Value,
    {
        vec![Parameter::new("Thickness", DataType::Value)]
    }

    fn set_parameter(&mut self, parameter_name: &str, data: Data<T>) where T: Float
        ensures
            final(self).thickness() == (if data is Value && parameter_name@ == "Thickness"@ {
                data->Value_0
            } else {
                old(self).thickness()
            }),
    {
        Parameter::set_value_from_param(parameter_name, &data, "Thickness", &mut self.t);
    }

    fn read_parameter(&self, parameter_name: &str) -> (data: Option<Data<T>>) where T: Float
        ensures
            data == (if parameter_name@ == "Thickness"@ {
                Some(Data::Value(self.thickness()))
            } else {
                None
            }),
    {
        if str_eq(parameter_name, "Thickness") {
            Some(Data::Value(self.t))
        } else {
            None
        }
    }

    fn name(&self) -> (n: &'static str)
        ensures
            n == self.kind(),
    {
        "Thickness"
    }
}

} // verus!
