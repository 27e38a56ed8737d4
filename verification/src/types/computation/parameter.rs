use vstd::prelude::*;
use num_traits::Float;

use crate::types::geometry::Vec3;
use crate::utils::float::clamp;
use crate::utils::text::str_eq;

verus! {

/// Enum to declare the data type which can be passed into a public parameter.
///
/// It holds no data: the data is passed as a [`Data`].
#[derive(Debug, Clone, Copy)]
pub enum DataType {
    /// A floating point value.
    Value,
    /// A three-dimensional coordinate, passed as a [`Vec3`].
    Vec3,
    /// A `bool`.
    Boolean,
    /// An unconstrained string.
    Text,
    /// A selection among a fixed list of options.
    Enum(&'static [&'static str]),
}

/// Data passed to or read from a parameter of a component.
#[derive(Debug, Clone)]
pub enum Data<T> {
    Value(T),
    Vec3(Vec3<T>),
    Boolean(bool),
    Text(String),
    File(String),
    EnumValue(String),
}

/// An input parameter through which the inner values of a function or operation can be
/// changed at runtime: a name and a [`DataType`].
#[derive(Debug, Clone, Copy)]
pub struct Parameter {
    /// Display name of the parameter.
    pub name: &'static str,
    /// Data type of the parameter.
    pub data_type: DataType,
}

impl Parameter {
    /// Create a new parameter from a name and a [`DataType`].
    pub fn new(name: &'static str, data_type: DataType) -> (p: Parameter)
        ensures
            p.name == name && p.data_type == data_type,
    {
        Self { name, data_type }
    }

    /// Assigns the value of `data` to `target` when `data` holds a value and the names match.
    /// Returns whether it did.
    pub fn set_value_from_param<T: Float>(
        parameter_name: &str,
        data: &Data<T>,
        target_name: &str,
        target: &mut T,
    ) -> (assigned: bool)
        ensures
            assigned == (data is Value && parameter_name@ == target_name@),
            *final(target) == (if assigned { data->Value_0 } else { *old(target) }),
    {
        if let Data::Value(value) = data {
            if str_eq(parameter_name, target_name) {
                *target = *value;
                return true;
            }
        }
        false
    }

    /// Returns the selected option held by `data` when it is an enum selection and the
    /// names match, otherwise `None`.
    pub fn get_string_from_enum_param<T>(
        parameter_name: &str,
        data: &Data<T>,
        target_name: &str,
    ) -> (selection: Option<String>)
        ensures
            selection == (if data is EnumValue && parameter_name@ == target_name@ {
                Some(data->EnumValue_0)
            } else {
                None
            }),
    {
        if let Data::EnumValue(value) = data {
            if str_eq(parameter_name, target_name) {
                return Some(value.clone());
            }
        }
        None
    }

    /// As [`Parameter::set_value_from_param`], but the value assigned is first clamped
    /// to `[min, max]`.
    pub fn set_clamped_value_from_param<T: Float>(
        parameter_name: &str,
        data: &Data<T>,
        target_name: &str,
        target: &mut T,
        min: T,
        max: T,
    ) -> (assigned: bool)
        ensures
            assigned == (data is Value && parameter_name@ == target_name@),
            assigned ==> (*final(target) == data->Value_0 || *final(target) == min
                || *final(target) == max),
            !assigned ==> *final(target) == *old(target),
    {
        if let Data::Value(value) = data {
            if str_eq(parameter_name, target_name) {
                *target = clamp(*value, min, max);
                return true;
            }
        }
        false
    }

    /// Assigns the point held by `data` to `target` when `data` holds a point and the
    /// names match. Returns whether it did.
    pub fn set_vec3_from_param<T: Float>(
        parameter_name: &str,
        data: &Data<T>,
        param: &str,
        target: &mut Vec3<T>,
    ) -> (assigned: bool)
        ensures
            assigned == (data is Vec3 && parameter_name@ == param@),
            *final(target) == (if assigned { data->Vec3_0 } else { *old(target) }),
    {
        if let Data::Vec3(value) = data {
            if str_eq(parameter_name, param) {
                *target = *value;
                return true;
            }
        }
        false
    }

    /// Assigns the flag held by `data` to `target` when `data` holds a `bool` and the
    /// names match. Returns whether it did.
    pub fn set_bool_from_param<T: Float>(
        parameter_name: &str,
        data: &Data<T>,
        param: &str,
        target: &mut bool,
    ) -> (assigned: bool)
        ensures
            assigned == (data is Boolean && parameter_name@ == param@),
            *final(target) == (if assigned { data->Boolean_0 } else { *old(target) }),
    {
        if let Data::Boolean(value) = data {
            if str_eq(parameter_name, param) {
                *target = *value;
                return true;
            }
        }
        false
    }

    /// Assigns the file path held by `data` to `target` when `data` holds a file path and
    /// the names match. Returns whether it did.
    pub fn set_text_from_param<T: Float>(
        parameter_name: &str,
        data: &Data<T>,
        param: &str,
        target: &mut String,
    ) -> (assigned: bool)
        ensures
            assigned == (data is File && parameter_name@ == param@),
            final(target)@ == (if assigned { data->File_0@ } else { old(target)@ }),
    {
        if let Data::File(value) = data {
            if str_eq(parameter_name, param) {
                *target = value.clone();
                return true;
            }
        }
        false
    }
}

impl<T> Data<T> {
    /// The value held, if this is a [`Data::Value`].
    pub fn get_value(&self) -> (v: Option<&T>)
        ensures
            v == (if self is Value { Some(&self->Value_0) } else { None }),
    {
        if let Data::Value(value) = self {
            Some(value)
        } else {
            None
        }
    }

    /// The point held, if this is a [`Data::Vec3`].
    pub fn get_vec3(&self) -> (v: Option<&Vec3<T>>)
        ensures
            v == (if self is Vec3 { Some(&self->Vec3_0) } else { None }),
    {
        if let Data::Vec3(vec3) = self {
            Some(vec3)
        } else {
            None
        }
    }

    /// The flag held, if this is a [`Data::Boolean`].
    pub fn get_bool(&self) -> (v: Option<bool>)
        ensures
            v == (if self is Boolean { Some(self->Boolean_0) } else { None }),
    {
        if let Data::Boolean(b) = self {
            Some(*b)
        } else {
            None
        }
    }

    /// A copy of the file path held, if this is a [`Data::File`].
    pub fn get_file(&self) -> (v: Option<String>)
        ensures
            v == (if self is File { Some(self->File_0) } else { None }),
    {
        if let Data::File(path) = self {
            Some(path.clone())
        } else {
            None
        }
    }

    /// The text held, if this is a [`Data::Text`].
    pub fn get_text(&self) -> (v: Option<&String>)
        ensures
            v == (if self is Text { Some(&self->Text_0) } else { None }),
    {
        if let Data::Text(text) = self {
            Some(text)
        } else {
            None
        }
    }
}

} // verus!
