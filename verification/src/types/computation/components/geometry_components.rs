use vstd::prelude::*;
use num_traits::Float;

use crate::types::computation::model::ModelComponent;
use crate::types::computation::traits::ImplicitFunction;
use crate::types::geometry::{BoundingBox, Capsule, Line, Plane, Sphere, Torus, Vec3};
use crate::utils::float::{from_usize, negate, quotient, zero};

verus! {

/// The kinds of geometric component that a model can be built from.
#[derive(Debug, Copy, Clone, PartialEq, Eq, Structural)]
pub enum GeometryComponent {
    Sphere,
    Torus,
    Plane,
    Box,
    Capsule,
    MeshFile,
}

/// The name of the function each kind of geometric component creates; a mesh file is
/// named "MeshFile".
pub open spec fn geometry_component_name(c: GeometryComponent) -> Seq<char> {
    match c {
        GeometryComponent::Sphere => "Sphere"@,
        GeometryComponent::Torus => "Torus"@,
        GeometryComponent::Plane => "Plane"@,
        GeometryComponent::Box => "BoundingBox"@,
        GeometryComponent::Capsule => "Capsule"@,
        GeometryComponent::MeshFile => "MeshFile"@,
    }
}

impl GeometryComponent {
    /// A component of this kind with default parameters, for interfaces that create
    /// components by kind: a function whose kind is [`geometry_component_name`] of `self`.
    /// Mesh files are not functions of this library, and give `None`.
    pub fn create_default<T: Float + Send + Sync + 'static>(&self) -> (component: Option<ModelComponent<T>>)
        ensures
            match component {
                Some(c) => c matches ModelComponent::Function(f) && f.kind()@ == geometry_component_name(*self),
                None => *self == GeometryComponent::MeshFile,
            },
    {
        let default_value: T = from_usize(45);
        match self {
            GeometryComponent::Sphere => Some(ModelComponent::Function(Box::new(Sphere::new(Vec3::origin(), default_value)))),
            GeometryComponent::Torus => Some(
                ModelComponent::Function(
                    Box::new(Torus::new(Vec3::origin(), default_value, quotient(from_usize(15), from_usize(2)))),
                ),
            ),
            GeometryComponent::Plane => Some(ModelComponent::Function(Box::new(Plane::xy()))),
            GeometryComponent::Box => Some(
                ModelComponent::Function(
                    Box::new(BoundingBox::new(Vec3::origin(), Vec3::new(default_value, default_value, default_value))),
                ),
            ),
            GeometryComponent::Capsule => Some(
                ModelComponent::Function(
                    Box::new(
                        Capsule::new(
                            Line::new(
                                Vec3::new(zero(), negate(default_value), zero()),
                                Vec3::new(zero(), default_value, zero()),
                            ),
                            from_usize(5),
                        ),
                    ),
                ),
            ),
            GeometryComponent::MeshFile => None,
        }
    }
}

/// The kinds of geometric component offered to interfaces, in display order.
pub fn public_geometry_components() -> (kinds: Vec<GeometryComponent>)
    ensures
        kinds@ == seq![
            GeometryComponent::Sphere,
            GeometryComponent::Torus,
            GeometryComponent::Plane,
            GeometryComponent::Capsule,
            GeometryComponent::MeshFile,
        ],
{
    vec![
        GeometryComponent::Sphere,
        GeometryComponent::Torus,
        GeometryComponent::Plane,
        GeometryComponent::Capsule,
        GeometryComponent::MeshFile,
    ]
}

} // verus!
