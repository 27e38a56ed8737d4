use vstd::prelude::*;
use num_traits::Float;

use crate::types::computation::model::ModelComponent;
use crate::types::computation::traits::ImplicitOperation;
use crate::utils::float::{one, zero};
use crate::utils::text::str_eq;

use super::math::{Add, Divide, LinearInterpolation, Multiply, Remap, Subtract, VariableLinearInterpolation};
use super::shape::{BooleanDifference, BooleanIntersection, BooleanUnion, Offset, Thickness};

verus! {

/// The kinds of operation component that a model can be built from.
#[derive(Debug, Copy, Clone, PartialEq, Eq, Structural)]
pub enum OperationComponent {
    Add,
    Subtract,
    Multiply,
    Divide,
    LinearInterpolation,
    VariableLinearInterpolation,
    Remap,
    BooleanUnion,
    BooleanDifference,
    BooleanIntersection,
    Offset,
    Thickness,
}

/// The name of each kind of operation component.
pub open spec fn operation_component_name(c: OperationComponent) -> Seq<char> {
    match c {
        OperationComponent::Add => "Add"@,
        OperationComponent::Subtract => "Subtract"@,
        OperationComponent::Multiply => "Multiply"@,
        OperationComponent::Divide => "Divide"@,
        OperationComponent::LinearInterpolation => "LinearInterpolation"@,
        OperationComponent::VariableLinearInterpolation => "VariableLinearInterpolation"@,
        OperationComponent::Remap => "Remap"@,
        OperationComponent::BooleanUnion => "BooleanUnion"@,
        OperationComponent::BooleanDifference => "BooleanDifference"@,
        OperationComponent::BooleanIntersection => "BooleanIntersection"@,
        OperationComponent::Offset => "Offset"@,
        OperationComponent::Thickness => "Thickness"@,
    }
}

impl OperationComponent {
    /// The kind of operation component with this name.
    pub fn parse(input: &str) -> (r: Result<OperationComponent, ()>)
        ensures
            match r {
                Ok(c) => operation_component_name(c) == input@,
                Err(_) => forall|c: OperationComponent| operation_component_name(c) != input@,
            },
    {
        if str_eq(input, "Add") {
            Ok(OperationComponent::Add)
        } else if str_eq(input, "Subtract") {
            Ok(OperationComponent::Subtract)
        } else if str_eq(input, "Multiply") {
            Ok(OperationComponent::Multiply)
        } else if str_eq(input, "Divide") {
            Ok(OperationComponent::Divide)
        } else if str_eq(input, "LinearInterpolation") {
            Ok(OperationComponent::LinearInterpolation)
        } else if str_eq(input, "VariableLinearInterpolation") {
            Ok(OperationComponent::VariableLinearInterpolation)
        } else if str_eq(input, "Remap") {
            Ok(OperationComponent::Remap)
        } else if str_eq(input, "BooleanUnion") {
            Ok(OperationComponent::BooleanUnion)
        } else if str_eq(input, "BooleanDifference") {
            Ok(OperationComponent::BooleanDifference)
        } else if str_eq(input, "BooleanIntersection") {
            Ok(OperationComponent::BooleanIntersection)
        } else if str_eq(input, "Offset") {
            Ok(OperationComponent::Offset)
        } else if str_eq(input, "Thickness") {
            Ok(OperationComponent::Thickness)
        } else {
            proof {
                assert forall|c: OperationComponent| operation_component_name(c) != input@ by {
                    match c {
                        OperationComponent::Add => {},
                        OperationComponent::Subtract => {},
                        OperationComponent::Multiply => {},
                        OperationComponent::Divide => {},
                        OperationComponent::LinearInterpolation => {},
                        OperationComponent::VariableLinearInterpolation => {},
                        OperationComponent::Remap => {},
                        OperationComponent::BooleanUnion => {},
                        OperationComponent::BooleanDifference => {},
                        OperationComponent::BooleanIntersection => {},
                        OperationComponent::Offset => {},
                        OperationComponent::Thickness => {},
                    }
                }
            }
            Err(())
        }
    }

    /// A component of this kind with default parameters, for interfaces that create
    /// components by kind: an operation whose kind is the name of `self`.
    pub fn create_default<T: Float + Send + Sync + 'static>(&self) -> (component: ModelComponent<T>)
        ensures
            component matches ModelComponent::Operation(op) && op.kind()@ == operation_component_name(*self),
    {
        match self {
            OperationComponent::Add => ModelComponent::Operation(Box::new(Add::new())),
            OperationComponent::Subtract => ModelComponent::Operation(Box::new(Subtract::new())),
            OperationComponent::Multiply => ModelComponent::Operation(Box::new(Multiply::new())),
            OperationComponent::Divide => ModelComponent::Operation(Box::new(Divide::new())),
            OperationComponent::LinearInterpolation => ModelComponent::Operation(Box::new(LinearInterpolation::<T>::new())),
            OperationComponent::VariableLinearInterpolation => ModelComponent::Operation(Box::new(VariableLinearInterpolation::new())),
            OperationComponent::Remap => ModelComponent::Operation(Box::new(Remap::<T>::new())),
            OperationComponent::BooleanUnion => ModelComponent::Operation(Box::new(BooleanUnion::new())),
            OperationComponent::BooleanDifference => ModelComponent::Operation(Box::new(BooleanDifference::new())),
            OperationComponent::BooleanIntersection => ModelComponent::Operation(Box::new(BooleanIntersection::new())),
            OperationComponent::Offset => ModelComponent::Operation(Box::new(Offset::new(zero::<T>()))),
            OperationComponent::Thickness => ModelComponent::Operation(Box::new(Thickness::new(one::<T>()))),
        }
    }
}

/// The kinds of operation component offered to interfaces, in display order.
pub fn operation_components() -> (kinds: Vec<OperationComponent>)
    ensures
        kinds@ == seq![
            OperationComponent::Add,
            OperationComponent::Subtract,
            OperationComponent::Multiply,
            OperationComponent::Divide,
            OperationComponent::LinearInterpolation,
            OperationComponent::VariableLinearInterpolation,
            OperationComponent::Remap,
            OperationComponent::VariableLinearInterpolation,
            OperationComponent::Remap,
            OperationComponent::BooleanUnion,
            OperationComponent::BooleanIntersection,
            OperationComponent::BooleanDifference,
            OperationComponent::Offset,
            OperationComponent::Thickness,
        ],
{
    vec![
        OperationComponent::Add,
        OperationComponent::Subtract,
        OperationComponent::Multiply,
        OperationComponent::Divide,
        OperationComponent::LinearInterpolation,
        OperationComponent::VariableLinearInterpolation,
        OperationComponent::Remap,
        OperationComponent::VariableLinearInterpolation,
        OperationComponent::Remap,
        OperationComponent::BooleanUnion,
        OperationComponent::BooleanIntersection,
        OperationComponent::BooleanDifference,
        OperationComponent::Offset,
        OperationComponent::Thickness,
    ]
}

} // verus!
