use vstd::prelude::*;
use num_traits::{Float, FloatConst};

use super::{Data, Parameter};

verus! {

/// Marker for types that can be shared between threads.
pub trait Concurrency: Send + Sync {}

impl<T: Send + Sync> Concurrency for T {}

/// Marker for what a component needs beyond its behaviour. It asks for nothing here:
/// serialisation of components is done outside the library.
pub trait SerdeComponent {}

impl<T> SerdeComponent for T {}

/// Base requirements of every implicit component.
pub trait Root: Concurrency + SerdeComponent {}

impl<T: Concurrency + SerdeComponent> Root for T {}

/// Value of pi for a scalar type, for users' own scalar types. The library itself takes
/// pi from `num_traits::FloatConst`.
pub trait Pi: Sized {
    /// Returns the value of pi.
    fn pi() -> Self;
}

/// A scalar type usable in an implicit model: shareable between threads, with a value of pi.
pub trait ModelFloat: Concurrency + Pi {}

impl<T: Concurrency + Pi> ModelFloat for T {}

/// General functionality of an implicit component: named parameters that can be read
/// and changed at runtime, and a name.
pub trait ImplicitComponent<T>: Root {
    /// The parameters exposed by the component; none by default.
    fn parameters(&self) -> Vec<Parameter> {
        Vec::new()
    }

    /// Assign the data to the parameter of that name; ignored by default.
    fn set_parameter(&mut self, parameter_name: &str, data: Data<T>) where T: Float {
    }

    /// Read the value of a parameter; `None` by default.
    fn read_parameter(&self, parameter_name: &str) -> Option<Data<T>> where T: Float {
        None
    }

    /// Name of the component.
    fn name(&self) -> &'static str;
}

/// A distance function in 3d space, `f(x, y, z) -> value`.
pub trait ImplicitFunction<T>: ImplicitComponent<T> {
    /// The kind of the function: the name that [`ImplicitComponent::name`] gives.
    spec fn kind(&self) -> &'static str;

    /// The value of the function at `(x, y, z)` where it is one of the coordinates or
    /// another value that no floating point arithmetic computes; `None` otherwise, and by
    /// default.
    open spec fn exact_value(&self, x: T, y: T, z: T) -> Option<T> {
        None
    }

    /// Evaluate the function at a point.
    fn eval(&self, x: T, y: T, z: T) -> (value: T) where T: Float + FloatConst
        ensures
            self.exact_value(x, y, z) matches Some(v) ==> value == v,
    ;
}

/// An operation on the outputs of other components, `f(inputs) -> value`.
pub trait ImplicitOperation<T>: ImplicitComponent<T> {
    /// The kind of the operation: the name that [`ImplicitComponent::name`] gives.
    spec fn kind(&self) -> &'static str;

    /// The number of inputs the operation takes.
    spec fn input_count(&self) -> nat;

    /// Perform the operation on the input values, one for each input; values past the
    /// number of inputs are not used.
    fn eval(&self, inputs: &[T]) -> T where T: Float
        requires
            inputs@.len() >= self.input_count(),
    ;

    /// The names of the inputs of the operation, one for each input.
    fn inputs(&self) -> (names: Vec<&'static str>)
        ensures
            names@.len() == self.input_count(),
    ;
}

} // verus!
