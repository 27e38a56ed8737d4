use vstd::prelude::*;
use num_traits::{Float, FloatConst};

use crate::types::computation::traits::{ImplicitFunction, ImplicitOperation};
use crate::types::computation::{Data, DataType, Parameter};

verus! {

/// Index of a component in a compiled computation graph.
#[derive(Debug, Copy, Clone)]
pub struct ComponentId(pub usize);

impl From<usize> for ComponentId {
    fn from(value: usize) -> (id: ComponentId) {
        ComponentId(value)
    }
}

impl vstd::std_specs::convert::FromSpecImpl<usize> for ComponentId {
    open spec fn obeys_from_spec() -> bool {
        true
    }

    open spec fn from_spec(v: usize) -> ComponentId {
        ComponentId(v)
    }
}

/// The kinds of component that make up a computation model.
///
/// * `Constant` - A value, the same across the whole model domain.
/// * `Function` - A function in 3d space `f(x,y,z)`; takes no inputs from other components.
/// * `Operation` - An operation on the outputs of other components.
#[verifier::reject_recursive_types(T)]
pub enum ModelComponent<T> {
    Constant(T),
    Function(Box<dyn ImplicitFunction<T>>),
    Operation(Box<dyn ImplicitOperation<T>>),
}

impl<T> ModelComponent<T> {
    /// The number of input values `compute` takes: that of the operation, none otherwise.
    pub open spec fn input_count(self) -> nat {
        match self {
            ModelComponent::Operation(op) => op.input_count(),
            _ => 0,
        }
    }

    /// The value of the component at `(x, y, z)` where no floating point arithmetic
    /// computes it: a constant's value, or a function's exact value (see
    /// [`ImplicitFunction::exact_value`]); `None` otherwise.
    pub open spec fn exact_value(self, x: T, y: T, z: T) -> Option<T> {
        match self {
            ModelComponent::Constant(c) => Some(c),
            ModelComponent::Function(f) => f.exact_value(x, y, z),
            ModelComponent::Operation(_) => None,
        }
    }

    /// Evaluate the component: a constant gives its value, a function its value at
    /// `(x, y, z)`, an operation its value on the inputs.
    pub fn compute(&self, x: T, y: T, z: T, inputs: &[T]) -> (value: T) where T: Float + FloatConst
        requires
            self is Operation ==> inputs@.len() >= self.input_count(),
        ensures
            self is Constant ==> value == self->Constant_0,
            self.exact_value(x, y, z) matches Some(v) ==> value == v,
    {
        match self {
            ModelComponent::Constant(value) => *value,
            ModelComponent::Function(function) => function.eval(x, y, z),
            ModelComponent::Operation(operation) => operation.eval(inputs),
        }
    }

    /// The name of the function or operation inside the component, "Constant" for a constant.
    pub fn component_type_name(&self) -> (name: &'static str)
        ensures
            self is Constant ==> name@ == "Constant"@,
    {
        match self {
            ModelComponent::Constant(_) => "Constant",
            ModelComponent::Function(function) => function.name(),
            ModelComponent::Operation(operation) => operation.name(),
        }
    }

    /// The parameters of the component with their current data. A constant has the one
    /// parameter "Value". A parameter whose data the component cannot read back is left out.
    pub fn get_parameters(&self) -> (params: Vec<(Parameter, Data<T>)>) where T: Float
        ensures
            self is Constant ==> params@.len() == 1 && params@[0].0.name@ == "Value"@
                && params@[0].0.data_type == DataType::Value && params@[0].1 == Data::Value(
                self->Constant_0),
    {
        match self {
            ModelComponent::Constant(value) => {
                let mut params = Vec::new();
                params.push((Parameter::new("Value", DataType::Value), Data::Value(*value)));
                params
            },
            ModelComponent::Function(function) => {
                let declared = function.parameters();
                let mut params = Vec::new();
                let mut i: usize = 0;
                while i < declared.len()
                    invariant
                        i <= declared@.len(),
                    decreases declared@.len() - i,
                {
                    let p = declared[i];
                    if let Some(data) = function.read_parameter(p.name) {
                        params.push((p, data));
                    }
                    i = i + 1;
                }
                params
            },
            ModelComponent::Operation(operation) => {
                let declared = operation.parameters();
                let mut params = Vec::new();
                let mut i: usize = 0;
                while i < declared.len()
                    invariant
                        i <= declared@.len(),
                    decreases declared@.len() - i,
                {
                    let p = declared[i];
                    if let Some(data) = operation.read_parameter(p.name) {
                        params.push((p, data));
                    }
                    i = i + 1;
                }
                params
            },
        }
    }

    /// Same as [`ModelComponent::get_parameters`].
    pub fn read_parameters(&self) -> (params: Vec<(Parameter, Data<T>)>) where T: Float
        ensures
            self is Constant ==> params@.len() == 1 && params@[0].0.name@ == "Value"@
                && params@[0].1 == Data::Value(self->Constant_0),
    {
        self.get_parameters()
    }

    /// Set a parameter of the component. A constant takes the value of a
    /// [`Data::Value`] whatever the name; functions and operations decide themselves.
    pub fn set_parameter(&mut self, parameter_name: &str, data: Data<T>) where T: Float
        requires
            *old(self) is Constant ==> data is Value,
        ensures
            *old(self) is Constant ==> *final(self) == ModelComponent::<T>::Constant(data->Value_0),
            *old(self) is Function <==> *final(self) is Function,
            *old(self) is Operation <==> *final(self) is Operation,
    {
        match self {
            ModelComponent::Constant(value) => {
                if let Data::Value(v) = data {
                    *value = v;
                }
            },
            ModelComponent::Function(function) => function.set_parameter(parameter_name, data),
            ModelComponent::Operation(operation) => operation.set_parameter(parameter_name, data),
        }
    }

    /// The names of the inputs of the component: those of the operation, none otherwise.
    pub fn input_names(&mut self) -> (names: Vec<&'static str>)
        ensures
            names@.len() == old(self).input_count(),
            *final(self) == *old(self),
    {
        match self {
            ModelComponent::Constant(_) => Vec::new(),
            ModelComponent::Function(_) => Vec::new(),
            ModelComponent::Operation(operation) => operation.inputs(),
        }
    }
}

} // verus!
