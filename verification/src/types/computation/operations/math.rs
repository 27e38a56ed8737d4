use vstd::prelude::*;
use num_traits::Float;

use crate::types::computation::traits::{ImplicitComponent, ImplicitOperation};
use crate::types::computation::{Data, DataType, Parameter};
use crate::utils::float::{abs, difference, epsilon, from_usize, lt, one, product, quotient, sum, zero};
use crate::utils::text::str_eq;

verus! {

/// Multiplies two values.
#[derive(Debug, Clone, Copy)]
pub struct Multiply {}

impl Multiply {
    /// Create the operation.
    pub fn new() -> Self {
        Self {}
    }
}

impl Default for Multiply {
    fn default() -> (op: Self)
        ensures
            op == (Multiply {}),
    {
        Self::new()
    }
}

impl<T> ImplicitOperation<T> for Multiply {
    open spec fn kind(&self) -> &'static str {
        "Multiply"
    }

    open spec fn input_count(&self) -> nat {
        2
    }

    fn eval(&self, inputs: &[T]) -> T where T: Float {
        product(inputs[0], inputs[1])
    }

    fn inputs(&self) -> (names: Vec<&'static str>) {
        vec!["First Number", "Second Number"]
    }
}

impl<T> ImplicitComponent<T> for Multiply {
    fn name(&self) -> &'static str {
        "Multiply"
    }
}

/// Adds two values.
#[derive(Debug, Clone, Copy)]
pub struct Add {}

impl Add {
    /// Create the operation.
    pub fn new() -> Self {
        Self {}
    }
}

impl Default for Add {
    fn default() -> (op: Self)
        ensures
            op == (Add {}),
    {
        Self::new()
    }
}

impl<T> ImplicitOperation<T> for Add {
    open spec fn kind(&self) -> &'static str {
        "Add"
    }

    open spec fn input_count(&self) -> nat {
        2
    }

    fn eval(&self, inputs: &[T]) -> T where T: Float {
        sum(inputs[0], inputs[1])
    }

    fn inputs(&self) -> (names: Vec<&'static str>) {
        vec!["First Number", "Second Number"]
    }
}

impl<T> ImplicitComponent<T> for Add {
    fn name(&self) -> &'static str {
        "Add"
    }
}

/// Subtracts the second value from the first.
#[derive(Debug, Clone, Copy)]
pub struct Subtract {}

impl Subtract {
    /// Create the operation.
    pub fn new() -> Self {
        Self {}
    }
}

impl Default for Subtract {
    fn default() -> (op: Self)
        ensures
            op == (Subtract {}),
    {
        Self::new()
    }
}

impl<T> ImplicitOperation<T> for Subtract {
    open spec fn kind(&self) -> &'static str {
        "Subtract"
    }

    open spec fn input_count(&self) -> nat {
        2
    }

    fn eval(&self, inputs: &[T]) -> T where T: Float {
        difference(inputs[0], inputs[1])
    }

    fn inputs(&self) -> (names: Vec<&'static str>) {
        vec!["First Number", "Second Number"]
    }
}

impl<T> ImplicitComponent<T> for Subtract {
    fn name(&self) -> &'static str {
        "Subtract"
    }
}

/// Divides the first value by the second.
#[derive(Debug, Clone, Copy)]
pub struct Divide {}

impl Divide {
    /// Create the operation.
    pub fn new() -> Self {
        Self {}
    }
}

impl Default for Divide {
    fn default() -> (op: Self)
        ensures
            op == (Divide {}),
    {
        Self::new()
    }
}

impl<T> ImplicitOperation<T> for Divide {
    open spec fn kind(&self) -> &'static str {
        "Divide"
    }

    open spec fn input_count(&self) -> nat {
        2
    }

    fn eval(&self, inputs: &[T]) -> T where T: Float {
        quotient(inputs[0], inputs[1])
    }

    fn inputs(&self) -> (names: Vec<&'static str>) {
        vec!["First Number", "Second Number"]
    }
}

impl<T> ImplicitComponent<T> for Divide {
    fn name(&self) -> &'static str {
        "Divide"
    }
}

/// Linear interpolation between two values by a factor in `[0, 1]`.
#[derive(Debug, Clone, Copy)]
pub struct LinearInterpolation<T> {
    factor: T,
}

impl<T> LinearInterpolation<T> {
    /// The interpolation factor.
    pub closed spec fn factor(self) -> T {
        self.factor
    }
}

impl<T: Float> LinearInterpolation<T> {
    /// Create the operation with a factor of one half.
    pub fn new() -> Self {
        Self { factor: quotient(one(), from_usize(2)) }
    }
}

impl<T: Send + Sync> ImplicitOperation<T> for LinearInterpolation<T> {
    open spec fn kind(&self) -> &'static str {
        "LinearInterpolation"
    }

    open spec fn input_count(&self) -> nat {
        2
    }

    fn eval(&self, inputs: &[T]) -> T where T: Float {
        sum(inputs[0], product(self.factor, difference(inputs[1], inputs[0])))
    }

    fn inputs(&self) -> (names: Vec<&'static str>) {
        vec!["First Value", "Second Value"]
    }
}

impl<T: Send + Sync> ImplicitComponent<T> for LinearInterpolation<T> {
    fn parameters(&self) -> (params: Vec<Parameter>)
        ensures
            params@.len() == 1,
            params@[0].name@ == "Factor"@ && params@[0].data_type == DataType::Value,
    {
        vec![Parameter::new("Factor", DataType::Value)]
    }

    fn set_parameter(&mut self, parameter_name: &str, data: Data<T>) where T: Float
        ensures
            !(data is Value && parameter_name@ == "Factor"@) ==> *final(self) == *old(self),
    {
        Parameter::set_clamped_value_from_param(parameter_name, &data, "Factor", &mut self.factor, zero(), one());
    }

    fn read_parameter(&self, parameter_name: &str) -> (data: Option<Data<T>>) where T: Float
        ensures
            data == (if parameter_name@ == "Factor"@ {
                Some(Data::Value(self.factor()))
            } else {
                None
            }),
    {
        if str_eq(parameter_name, "Factor") {
            Some(Data::Value(self.factor))
        } else {
            None
        }
    }

    fn name(&self) -> (n: &'static str)
        ensures
            n == self.kind(),
    {
        "LinearInterpolation"
    }
}

/// Linear interpolation between two values by a factor given as a third value.
#[derive(Debug, Clone, Copy)]
pub struct VariableLinearInterpolation {}

impl VariableLinearInterpolation {
    /// Create the operation.
    pub fn new() -> Self {
        Self {}
    }
}

impl Default for VariableLinearInterpolation {
    fn default() -> (op: Self)
        ensures
            op == (VariableLinearInterpolation {}),
    {
        Self::new()
    }
}

impl<T> ImplicitOperation<T> for VariableLinearInterpolation {
    open spec fn kind(&self) -> &'static str {
        "VariableLinearInterpolation"
    }

    open spec fn input_count(&self) -> nat {
        3
    }

    fn eval(&self, inputs: &[T]) -> T where T: Float {
        sum(inputs[0], product(inputs[2], difference(inputs[1], inputs[0])))
    }

    fn inputs(&self) -> (names: Vec<&'static str>) {
        vec!["First Value", "Second Value", "Factor"]
    }
}

impl<T> ImplicitComponent<T> for VariableLinearInterpolation {
    fn name(&self) -> &'static str {
        "VariableLinearInterpolation"
    }
}

/// Maps a value linearly from a source range onto a target range.
#[derive(Debug, Clone, Copy)]
pub struct Remap<T> {
    from_min: T,
    from_max: T,
    to_min: T,
    to_max: T,
}

impl<T> Remap<T> {
    /// The source and target ranges: `(from_min, from_max, to_min, to_max)`.
    pub closed spec fn ranges(self) -> (T, T, T, T) {
        (self.from_min, self.from_max, self.to_min, self.to_max)
    }

    /// Create the operation from both ranges.
    pub fn from_ranges(from_min: T, from_max: T, to_min: T, to_max: T) -> (op: Self)
        ensures
            op.ranges() == (from_min, from_max, to_min, to_max),
    {
        Self { from_min, from_max, to_min, to_max }
    }
}

impl<T: Float> Remap<T> {
    /// Create the operation mapping `[0, 1]` onto `[0, 1]`.
    pub fn new() -> (op: Self)
        ensures
            op.ranges().0 == op.ranges().2 && op.ranges().1 == op.ranges().3,
    {
        let lo: T = zero();
        let hi: T = one();
        Self { from_min: lo, from_max: hi, to_min: lo, to_max: hi }
    }

    /// Create the operation mapping `[from_min, from_max]` onto `[0, 1]`.
    pub fn with_source_domain(from_min: T, from_max: T) -> (op: Self)
        ensures
            op.ranges().0 == from_min && op.ranges().1 == from_max,
    {
        Self { from_min, from_max, to_min: zero(), to_max: one() }
    }

    /// Whether two bounds of a range are too close to tell apart.
    fn degenerate(a: T, b: T) -> bool {
        lt(abs(difference(a, b)), epsilon())
    }
}

impl<T: Send + Sync> ImplicitOperation<T> for Remap<T> {
    open spec fn kind(&self) -> &'static str {
        "Remap"
    }

    open spec fn input_count(&self) -> nat {
        1
    }

    fn eval(&self, inputs: &[T]) -> T where T: Float {
        let normalized = quotient(difference(inputs[0], self.from_min), difference(self.from_max, self.from_min));
        sum(self.to_min, product(normalized, difference(self.to_max, self.to_min)))
    }

    fn inputs(&self) -> (names: Vec<&'static str>) {
        vec!["Value"]
    }
}

impl<T: Send + Sync> ImplicitComponent<T> for Remap<T> {
    fn parameters(&self) -> (params: Vec<Parameter>)
        ensures
            params@.len() == 4,
            params@[0].name@ == "FromMin"@ && params@[0].data_type == DataType::Value,
            params@[1].name@ == "FromMax"@ && params@[1].data_type == DataType::Value,
            params@[2].name@ == "ToMin"@ && params@[2].data_type == DataType::Value,
            params@[3].name@ == "ToMax"@ && params@[3].data_type == DataType::Value,
    {
        vec![
            Parameter::new("FromMin", DataType::Value),
            Parameter::new("FromMax", DataType::Value),
            Parameter::new("ToMin", DataType::Value),
            Parameter::new("ToMax", DataType::Value),
        ]
    }

    /// Set one bound of a range. A value that makes the range empty, its bounds too close
    /// to tell apart, is refused and the bound kept.
    fn set_parameter(&mut self, parameter_name: &str, data: Data<T>) where T: Float
        ensures
            data is Value && parameter_name@ == "FromMin"@ ==> final(self).ranges() == old(self).ranges() || final(self).ranges() == (data->Value_0, old(self).ranges().1, old(self).ranges().2, old(self).ranges().3),
            data is Value && parameter_name@ == "FromMax"@ ==> final(self).ranges() == old(self).ranges() || final(self).ranges() == (old(self).ranges().0, data->Value_0, old(self).ranges().2, old(self).ranges().3),
            data is Value && parameter_name@ == "ToMin"@ ==> final(self).ranges() == old(self).ranges() || final(self).ranges() == (old(self).ranges().0, old(self).ranges().1, data->Value_0, old(self).ranges().3),
            data is Value && parameter_name@ == "ToMax"@ ==> final(self).ranges() == old(self).ranges() || final(self).ranges() == (old(self).ranges().0, old(self).ranges().1, old(self).ranges().2, data->Value_0),
            !(data is Value) ==> *final(self) == *old(self),
            !(parameter_name@ == "FromMin"@ || parameter_name@ == "FromMax"@ || parameter_name@ == "ToMin"@
                || parameter_name@ == "ToMax"@) ==> *final(self) == *old(self),
    {
        proof {
            reveal_strlit("FromMin");
            reveal_strlit("FromMax");
            reveal_strlit("ToMin");
            reveal_strlit("ToMax");
            assert("FromMax"@[5] != "FromMin"@[5]);
            assert("ToMax"@[3] != "ToMin"@[3]);
        }
        if str_eq(parameter_name, "FromMin") {
            let old_min = self.from_min;
            Parameter::set_value_from_param(parameter_name, &data, "FromMin", &mut self.from_min);
            if Self::degenerate(self.from_min, self.from_max) {
                self.from_min = old_min;
            }
        } else if str_eq(parameter_name, "FromMax") {
            let old_max = self.from_max;
            Parameter::set_value_from_param(parameter_name, &data, "FromMax", &mut self.from_max);
            if Self::degenerate(self.from_min, self.from_max) {
                self.from_max = old_max;
            }
        } else if str_eq(parameter_name, "ToMin") {
            let old_min = self.to_min;
            Parameter::set_value_from_param(parameter_name, &data, "ToMin", &mut self.to_min);
            if Self::degenerate(self.to_min, self.to_max) {
                self.to_min = old_min;
            }
        } else if str_eq(parameter_name, "ToMax") {
            let old_max = self.to_max;
            Parameter::set_value_from_param(parameter_name, &data, "ToMax", &mut self.to_max);
            if Self::degenerate(self.to_min, self.to_max) {
                self.to_max = old_max;
            }
        }
    }

    fn read_parameter(&self, parameter_name: &str) -> (data: Option<Data<T>>) where T: Float
        ensures
            data == (if parameter_name@ == "FromMin"@ {
                Some(Data::Value(self.ranges().0))
            } else if parameter_name@ == "FromMax"@ {
                Some(Data::Value(self.ranges().1))
            } else if parameter_name@ == "ToMin"@ {
                Some(Data::Value(self.ranges().2))
            } else if parameter_name@ == "ToMax"@ {
                Some(Data::Value(self.ranges().3))
            } else {
                None
            }),
    {
        if str_eq(parameter_name, "FromMin") {
            Some(Data::Value(self.from_min))
        } else if str_eq(parameter_name, "FromMax") {
            Some(Data::Value(self.from_max))
        } else if str_eq(parameter_name, "ToMin") {
            Some(Data::Value(self.to_min))
        } else if str_eq(parameter_name, "ToMax") {
            Some(Data::Value(self.to_max))
        } else {
            None
        }
    }

    fn name(&self) -> (n: &'static str)
        ensures
            n == self.kind(),
    {
        "Remap"
    }
}

} // verus!
