use vstd::prelude::*;
use num_traits::{Float, FloatConst};

use crate::types::computation::traits::{ImplicitComponent, ImplicitFunction};
use crate::types::computation::{Data, DataType, Parameter};
use crate::utils::float::{abs, difference, epsilon, lt, one, zero};
use crate::utils::math_helper::normalize;
use crate::utils::text::str_eq;

verus! {

/// The parameters of a coordinate domain.
fn domain_parameters() -> (params: Vec<Parameter>)
    ensures
        params@.len() == 2,
        params@[0].name@ == "Min"@ && params@[0].data_type == DataType::Value,
        params@[1].name@ == "Max"@ && params@[1].data_type == DataType::Value,
{
    vec![Parameter::new("Min", DataType::Value), Parameter::new("Max", DataType::Value)]
}

/// The bounds of a coordinate domain after setting one of them: "Min" or "Max" takes the
/// value held by `data`, unless it lands too close to the other bound to tell them apart;
/// the bound is then kept. Other names change nothing.
fn set_domain_bound<T: Float>(min: T, max: T, parameter_name: &str, data: &Data<T>) -> (bounds: (T, T))
    ensures
        bounds.1 == max || (parameter_name@ == "Max"@ && data is Value && bounds.1 == data->Value_0),
        bounds.0 == min || (parameter_name@ == "Min"@ && data is Value && bounds.0 == data->Value_0),
        bounds.0 == min || bounds.1 == max,
{
    proof {
        reveal_strlit("Min");
        reveal_strlit("Max");
        assert("Min"@[1] != "Max"@[1]);
    }
    let mut new_min = min;
    let mut new_max = max;
    if str_eq(parameter_name, "Min") {
        Parameter::set_value_from_param(parameter_name, data, "Min", &mut new_min);
        if lt(abs(difference(new_min, new_max)), epsilon()) {
            new_min = min;
        }
    } else if str_eq(parameter_name, "Max") {
        Parameter::set_value_from_param(parameter_name, data, "Max", &mut new_max);
        if lt(abs(difference(new_min, new_max)), epsilon()) {
            new_max = max;
        }
    }
    (new_min, new_max)
}

/// The z coordinate, mapped linearly so that `min` gives 0 and `max` gives 1.
#[derive(Debug, Clone, Copy)]
pub struct ZDomain<T> {
    /// Coordinate mapped to 0.
    pub min: T,
    /// Coordinate mapped to 1.
    pub max: T,
}

impl<T: Float> ZDomain<T> {
    /// Map `[min, max]` onto `[0, 1]`.
    pub fn remapped(min: T, max: T) -> (f: Self)
        ensures
            f.min == min && f.max == max,
    {
        Self { min, max }
    }

    /// Map `[0, 1]` onto itself: the coordinate unchanged.
    pub fn natural() -> Self {
        Self { min: zero(), max: one() }
    }
}

impl<T: Send + Sync> ImplicitFunction<T> for ZDomain<T> {
    open spec fn kind(&self) -> &'static str {
        "ZDomain"
    }

    fn eval(&self, x: T, y: T, z: T) -> T where T: Float + FloatConst {
        normalize(z, self.min, self.max)
    }
}

impl<T: Send + Sync> ImplicitComponent<T> for ZDomain<T> {
    fn parameters(&self) -> (params: Vec<Parameter>)
        ensures
            params@.len() == 2,
            params@[0].name@ == "Min"@ && params@[0].data_type == DataType::Value,
            params@[1].name@ == "Max"@ && params@[1].data_type == DataType::Value,
    {
        domain_parameters()
    }

    /// Set a bound. A value equal to the other bound, too close to tell apart, is refused
    /// and the bound kept.
    fn set_parameter(&mut self, parameter_name: &str, data: Data<T>) where T: Float
        ensures
            final(self).max == old(self).max || (parameter_name@ == "Max"@ && data is Value && final(self).max
                == data->Value_0),
            final(self).min == old(self).min || (parameter_name@ == "Min"@ && data is Value && final(self).min
                == data->Value_0),
            final(self).min == old(self).min || final(self).max == old(self).max,
    {
        let (min, max) = set_domain_bound(self.min, self.max, parameter_name, &data);
        self.min = min;
        self.max = max;
    }

    fn read_parameter(&self, parameter_name: &str) -> (data: Option<Data<T>>) where T: Float
        ensures
            data == (if parameter_name@ == "Min"@ {
                Some(Data::Value(self.min))
            } else if parameter_name@ == "Max"@ {
                Some(Data::Value(self.max))
            } else {
                None
            }),
    {
        if str_eq(parameter_name, "Min") {
            Some(Data::Value(self.min))
        } else if str_eq(parameter_name, "Max") {
            Some(Data::Value(self.max))
        } else {
            None
        }
    }

    fn name(&self) -> (n: &'static str)
        ensures
            n == self.kind(),
    {
        "ZDomain"
    }
}

/// The y coordinate, mapped linearly so that `min` gives 0 and `max` gives 1.
#[derive(Debug, Clone, Copy)]
pub struct YDomain<T> {
    /// Coordinate mapped to 0.
    pub min: T,
    /// Coordinate mapped to 1.
    pub max: T,
}

impl<T: Float> YDomain<T> {
    /// Map `[min, max]` onto `[0, 1]`.
    pub fn remapped(min: T, max: T) -> (f: Self)
        ensures
            f.min == min && f.max == max,
    {
        Self { min, max }
    }

    /// Map `[0, 1]` onto itself: the coordinate unchanged.
    pub fn natural() -> Self {
        Self { min: zero(), max: one() }
    }
}

impl<T: Send + Sync> ImplicitFunction<T> for YDomain<T> {
    open spec fn kind(&self) -> &'static str {
        "YDomain"
    }

    fn eval(&self, x: T, y: T, z: T) -> T where T: Float + FloatConst {
        normalize(y, self.min, self.max)
    }
}

impl<T: Send + Sync> ImplicitComponent<T> for YDomain<T> {
    fn parameters(&self) -> (params: Vec<Parameter>)
        ensures
            params@.len() == 2,
            params@[0].name@ == "Min"@ && params@[0].data_type == DataType::Value,
            params@[1].name@ == "Max"@ && params@[1].data_type == DataType::Value,
    {
        domain_parameters()
    }

    /// Set a bound. A value equal to the other bound, too close to tell apart, is refused
    /// and the bound kept.
    fn set_parameter(&mut self, parameter_name: &str, data: Data<T>) where T: Float
        ensures
            final(self).max == old(self).max || (parameter_name@ == "Max"@ && data is Value && final(self).max
                == data->Value_0),
            final(self).min == old(self).min || (parameter_name@ == "Min"@ && data is Value && final(self).min
                == data->Value_0),
            final(self).min == old(self).min || final(self).max == old(self).max,
    {
        let (min, max) = set_domain_bound(self.min, self.max, parameter_name, &data);
        self.min = min;
        self.max = max;
    }

    fn read_parameter(&self, parameter_name: &str) -> (data: Option<Data<T>>) where T: Float
        ensures
            data == (if parameter_name@ == "Min"@ {
                Some(Data::Value(self.min))
            } else if parameter_name@ == "Max"@ {
                Some(Data::Value(self.max))
            } else {
                None
            }),
    {
        if str_eq(parameter_name, "Min") {
            Some(Data::Value(self.min))
        } else if str_eq(parameter_name, "Max") {
            Some(Data::Value(self.max))
        } else {
            None
        }
    }

    fn name(&self) -> (n: &'static str)
        ensures
            n == self.kind(),
    {
        "YDomain"
    }
}

/// The x coordinate, mapped linearly so that `min` gives 0 and `max` gives 1.
#[derive(Debug, Clone, Copy)]
pub struct XDomain<T> {
    /// Coordinate mapped to 0.
    pub min: T,
    /// Coordinate mapped to 1.
    pub max: T,
}

impl<T: Float> XDomain<T> {
    /// Map `[min, max]` onto `[0, 1]`.
    pub fn remapped(min: T, max: T) -> (f: Self)
        ensures
            f.min == min && f.max == max,
    {
        Self { min, max }
    }

    /// Map `[0, 1]` onto itself: the coordinate unchanged.
    pub fn natural() -> Self {
        Self { min: zero(), max: one() }
    }
}

impl<T: Send + Sync> ImplicitFunction<T> for XDomain<T> {
    open spec fn kind(&self) -> &'static str {
        "XDomain"
    }

    fn eval(&self, x: T, y: T, z: T) -> T where T: Float + FloatConst {
        normalize(x, self.min, self.max)
    }
}

impl<T: Send + Sync> ImplicitComponent<T> for XDomain<T> {
    fn parameters(&self) -> (params: Vec<Parameter>)
        ensures
            params@.len() == 2,
            params@[0].name@ == "Min"@ && params@[0].data_type == DataType::Value,
            params@[1].name@ == "Max"@ && params@[1].data_type == DataType::Value,
    {
        domain_parameters()
    }

    /// Set a bound. A value equal to the other bound, too close to tell apart, is refused
    /// and the bound kept.
    fn set_parameter(&mut self, parameter_name: &str, data: Data<T>) where T: Float
        ensures
            final(self).max == old(self).max || (parameter_name@ == "Max"@ && data is Value && final(self).max
                == data->Value_0),
            final(self).min == old(self).min || (parameter_name@ == "Min"@ && data is Value && final(self).min
                == data->Value_0),
            final(self).min == old(self).min || final(self).max == old(self).max,
    {
        let (min, max) = set_domain_bound(self.min, self.max, parameter_name, &data);
        self.min = min;
        self.max = max;
    }

    fn read_parameter(&self, parameter_name: &str) -> (data: Option<Data<T>>) where T: Float
        ensures
            data == (if parameter_name@ == "Min"@ {
                Some(Data::Value(self.min))
            } else if parameter_name@ == "Max"@ {
                Some(Data::Value(self.max))
            } else {
                None
            }),
    {
        if str_eq(parameter_name, "Min") {
            Some(Data::Value(self.min))
        } else if str_eq(parameter_name, "Max") {
            Some(Data::Value(self.max))
        } else {
            None
        }
    }

    fn name(&self) -> (n: &'static str)
        ensures
            n == self.kind(),
    {
        "XDomain"
    }
}

/// Which coordinate of a point a [`XYZValue`] gives.
#[derive(Debug, Clone, Copy, PartialEq, Eq, Structural)]
pub enum CoordinateValue {
    X,
    Y,
    Z,
}

/// The name under which a coordinate is selected.
pub open spec fn coordinate_name(coordinate: CoordinateValue) -> &'static str {
    match coordinate {
        CoordinateValue::X => "X",
        CoordinateValue::Y => "Y",
        CoordinateValue::Z => "Z",
    }
}

/// The value of one coordinate of the point.
#[derive(Debug, Clone, Copy)]
pub struct XYZValue {
    coordinate_value: CoordinateValue,
}

impl XYZValue {
    /// The coordinate given.
    pub closed spec fn coordinate(self) -> CoordinateValue {
        self.coordinate_value
    }

    /// Create a function giving one coordinate.
    pub fn new(coordinate_value: CoordinateValue) -> (f: Self)
        ensures
            f.coordinate() == coordinate_value,
    {
        Self { coordinate_value }
    }
}

impl<T> ImplicitFunction<T> for XYZValue {
    open spec fn kind(&self) -> &'static str {
        "XYZValue"
    }

    open spec fn exact_value(&self, x: T, y: T, z: T) -> Option<T> {
        Some(
            match self.coordinate() {
                CoordinateValue::X => x,
                CoordinateValue::Y => y,
                CoordinateValue::Z => z,
            },
        )
    }

    fn eval(&self, x: T, y: T, z: T) -> (value: T) where T: Float + FloatConst
        ensures
            value == match self.coordinate() {
                CoordinateValue::X => x,
                CoordinateValue::Y => y,
                CoordinateValue::Z => z,
            },
    {
        match self.coordinate_value {
            CoordinateValue::X => x,
            CoordinateValue::Y => y,
            CoordinateValue::Z => z,
        }
    }
}

impl<T> ImplicitComponent<T> for XYZValue {
    fn parameters(&self) -> Vec<Parameter> {
        vec![Parameter::new("Coordinate", DataType::Enum(&["X", "Y", "Z"]))]
    }

    fn set_parameter(&mut self, parameter_name: &str, data: Data<T>) where T: Float
        ensures
            final(self).coordinate() == (if parameter_name@ == "Coordinate"@ && data is EnumValue {
                if data->EnumValue_0@ == "X"@ {
                    CoordinateValue::X
                } else if data->EnumValue_0@ == "Y"@ {
                    CoordinateValue::Y
                } else if data->EnumValue_0@ == "Z"@ {
                    CoordinateValue::Z
                } else {
                    old(self).coordinate()
                }
            } else {
                old(self).coordinate()
            }),
    {
        if let Some(selection) = Parameter::get_string_from_enum_param(parameter_name, &data, "Coordinate") {
            if str_eq(selection.as_str(), "X") {
                self.coordinate_value = CoordinateValue::X;
            } else if str_eq(selection.as_str(), "Y") {
                self.coordinate_value = CoordinateValue::Y;
            } else if str_eq(selection.as_str(), "Z") {
                self.coordinate_value = CoordinateValue::Z;
            }
        }
    }

    fn read_parameter(&self, parameter_name: &str) -> (data: Option<Data<T>>) where T: Float
        ensures
            parameter_name@ == "Coordinate"@ ==> (data matches Some(Data::<T>::EnumValue(selection))
                && selection@ == coordinate_name(self.coordinate())@),
            parameter_name@ != "Coordinate"@ ==> data is None,
    {
        if str_eq(parameter_name, "Coordinate") {
            match self.coordinate_value {
                CoordinateValue::X => Some(Data::EnumValue(String::from_str("X"))),
                CoordinateValue::Y => Some(Data::EnumValue(String::from_str("Y"))),
                CoordinateValue::Z => Some(Data::EnumValue(String::from_str("Z"))),
            }
        } else {
            None
        }
    }

    fn name(&self) -> &'static str {
        "XYZValue"
    }
}

} // verus!
