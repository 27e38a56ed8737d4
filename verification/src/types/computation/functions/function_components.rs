use vstd::prelude::*;
use num_traits::Float;

use crate::types::computation::model::ModelComponent;
use crate::types::computation::traits::ImplicitFunction;
use crate::types::geometry::{BoundingBox, Capsule, Line, Plane, Sphere, Torus, Vec3};
use crate::utils::float::{from_usize, negate, quotient, zero};
use crate::utils::text::str_eq;

use super::{CoordinateValue, SchwarzP, XDomain, XYZValue, YDomain, ZDomain};

verus! {

/// The kinds of function component that a model can be built from by name.
#[derive(Debug, Copy, Clone, PartialEq, Eq, Structural)]
pub enum FunctionComponent {
    Gyroid,
    SchwarzP,
    Neovius,
    XDomain,
    YDomain,
    ZDomain,
    XYZValue,
    Sphere,
    Torus,
    Plane,
    BoundingBox,
    Capsule,
    MeshFile,
}

/// The name of each kind of function component.
pub open spec fn function_component_name(c: FunctionComponent) -> Seq<char> {
    match c {
        FunctionComponent::Gyroid => "Gyroid"@,
        FunctionComponent::SchwarzP => "SchwarzP"@,
        FunctionComponent::Neovius => "Neovius"@,
        FunctionComponent::XDomain => "XDomain"@,
        FunctionComponent::YDomain => "YDomain"@,
        FunctionComponent::ZDomain => "ZDomain"@,
        FunctionComponent::XYZValue => "XYZValue"@,
        FunctionComponent::Sphere => "Sphere"@,
        FunctionComponent::Torus => "Torus"@,
        FunctionComponent::Plane => "Plane"@,
        FunctionComponent::BoundingBox => "BoundingBox"@,
        FunctionComponent::Capsule => "Capsule"@,
        FunctionComponent::MeshFile => "MeshFile"@,
    }
}

impl FunctionComponent {
    /// The kind of function component with this name.
    pub fn parse(input: &str) -> (r: Result<FunctionComponent, ()>)
        ensures
            match r {
                Ok(c) => function_component_name(c) == input@,
                Err(_) => forall|c: FunctionComponent| function_component_name(c) != input@,
            },
    {
        if str_eq(input, "Gyroid") {
            Ok(FunctionComponent::Gyroid)
        } else if str_eq(input, "SchwarzP") {
            Ok(FunctionComponent::SchwarzP)
        } else if str_eq(input, "Neovius") {
            Ok(FunctionComponent::Neovius)
        } else if str_eq(input, "XDomain") {
            Ok(FunctionComponent::XDomain)
        } else if str_eq(input, "YDomain") {
            Ok(FunctionComponent::YDomain)
        } else if str_eq(input, "ZDomain") {
            Ok(FunctionComponent::ZDomain)
        } else if str_eq(input, "XYZValue") {
            Ok(FunctionComponent::XYZValue)
        } else if str_eq(input, "Sphere") {
            Ok(FunctionComponent::Sphere)
        } else if str_eq(input, "Torus") {
            Ok(FunctionComponent::Torus)
        } else if str_eq(input, "Plane") {
            Ok(FunctionComponent::Plane)
        } else if str_eq(input, "BoundingBox") {
            Ok(FunctionComponent::BoundingBox)
        } else if str_eq(input, "Capsule") {
            Ok(FunctionComponent::Capsule)
        } else if str_eq(input, "MeshFile") {
            Ok(FunctionComponent::MeshFile)
        } else {
            proof {
                assert forall|c: FunctionComponent| function_component_name(c) != input@ by {
                    match c {
                        FunctionComponent::Gyroid => {},
                        FunctionComponent::SchwarzP => {},
                        FunctionComponent::Neovius => {},
                        FunctionComponent::XDomain => {},
                        FunctionComponent::YDomain => {},
                        FunctionComponent::ZDomain => {},
                        FunctionComponent::XYZValue => {},
                        FunctionComponent::Sphere => {},
                        FunctionComponent::Torus => {},
                        FunctionComponent::Plane => {},
                        FunctionComponent::BoundingBox => {},
                        FunctionComponent::Capsule => {},
                        FunctionComponent::MeshFile => {},
                    }
                }
            }
            Err(())
        }
    }

    /// A component of this kind with default parameters, for interfaces that create
    /// components by kind: a function whose kind is the name of `self`. Gyroid and Neovius
    /// surfaces and mesh files are not functions of this library, and give `None`.
    pub fn create_default<T: Float + Send + Sync + 'static>(&self) -> (component: Option<ModelComponent<T>>)
        ensures
            match component {
                Some(c) => c matches ModelComponent::Function(f) && f.kind()@ == function_component_name(*self),
                None => *self == FunctionComponent::Gyroid || *self == FunctionComponent::Neovius || *self
                    == FunctionComponent::MeshFile,
            },
    {
        let default_value: T = from_usize(45);
        match self {
            FunctionComponent::Gyroid => None,
            FunctionComponent::Neovius => None,
            FunctionComponent::MeshFile => None,
            FunctionComponent::SchwarzP => Some(
                ModelComponent::Function(Box::new(SchwarzP::with_equal_spacing(from_usize(15), false))),
            ),
            FunctionComponent::XYZValue => Some(ModelComponent::Function(Box::new(XYZValue::new(CoordinateValue::X)))),
            FunctionComponent::Sphere => Some(ModelComponent::Function(Box::new(Sphere::new(Vec3::origin(), default_value)))),
            FunctionComponent::Torus => Some(
                ModelComponent::Function(
                    Box::new(Torus::new(Vec3::origin(), default_value, quotient(from_usize(15), from_usize(2)))),
                ),
            ),
            FunctionComponent::Plane => Some(ModelComponent::Function(Box::new(Plane::xy()))),
            FunctionComponent::BoundingBox => Some(
                ModelComponent::Function(
                    Box::new(BoundingBox::new(Vec3::origin(), Vec3::new(default_value, default_value, default_value))),
                ),
            ),
            FunctionComponent::Capsule => Some(
                ModelComponent::Function(
                    Box::new(
                        Capsule::new(
                            Line::new(
                                Vec3::new(zero(), negate(default_value), zero()),
                                Vec3::new(zero(), default_value, zero()),
                            ),
                            from_usize(5),
                        ),
                    ),
                ),
            ),
            FunctionComponent::XDomain => Some(ModelComponent::Function(Box::new(XDomain::natural()))),
            FunctionComponent::YDomain => Some(ModelComponent::Function(Box::new(YDomain::natural()))),
            FunctionComponent::ZDomain => Some(ModelComponent::Function(Box::new(ZDomain::natural()))),
        }
    }
}

impl std::str::FromStr for FunctionComponent {
    type Err = ();

    fn from_str(input: &str) -> (r: Result<FunctionComponent, ()>)
        ensures
            match r {
                Ok(c) => function_component_name(c) == input@,
                Err(_) => forall|c: FunctionComponent| function_component_name(c) != input@,
            },
    {
        FunctionComponent::parse(input)
    }
}

/// The kinds of function component offered to interfaces, in display order.
pub fn function_components() -> (kinds: Vec<FunctionComponent>)
    ensures
        kinds@ == seq![
            FunctionComponent::Gyroid,
            FunctionComponent::SchwarzP,
            FunctionComponent::Neovius,
            FunctionComponent::XYZValue,
            FunctionComponent::XDomain,
            FunctionComponent::YDomain,
            FunctionComponent::ZDomain,
            FunctionComponent::Sphere,
            FunctionComponent::Torus,
            FunctionComponent::Plane,
            FunctionComponent::Capsule,
            FunctionComponent::MeshFile,
        ],
{
    vec![
        FunctionComponent::Gyroid,
        FunctionComponent::SchwarzP,
        FunctionComponent::Neovius,
        FunctionComponent::XYZValue,
        FunctionComponent::XDomain,
        FunctionComponent::YDomain,
        FunctionComponent::ZDomain,
        FunctionComponent::Sphere,
        FunctionComponent::Torus,
        FunctionComponent::Plane,
        FunctionComponent::Capsule,
        FunctionComponent::MeshFile,
    ]
}

} // verus!
