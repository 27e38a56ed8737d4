use vstd::prelude::*;

use crate::utils::text::{decimal, decimal_text};

verus! {

/// Error variants returned from model building and computation.
#[derive(Debug)]
pub enum ModelError {
    /// A component's inputs depend on the component itself.
    CyclicDependency(String),
    /// A referenced tag is not present in the model.
    MissingTag(String),
    /// A component was added with a tag that is already used.
    DuplicateTag(String),
    /// An input index is not smaller than the number of inputs of the component.
    InputIndexOutOfRange { component: String, num_inputs: usize, index: usize },
    /// A component was added with a list of inputs whose length differs from the number
    /// of inputs of the operation.
    IncorrectInputCount { component: String, num_inputs: usize, count: usize },
    /// An input of a component has no source.
    MissingInput { component: String, index: usize },
    /// No free tag could be generated from a base tag.
    TagGenerationFailed(String),
    /// No output is specified.
    MissingOutput(),
    /// No model config is defined.
    MissingConfig(),
    /// A generic error with a custom message.
    Custom(String),
}

/// The text of `first` followed by `middle` and `last`.
fn message3(first: &str, middle: &str, last: &str) -> (s: String)
    ensures
        s@ == first@ + middle@ + last@,
{
    let mut s = String::from_str(first);
    s.append(middle);
    s.append(last);
    s
}

impl ModelError {
    /// Human readable description of the error.
    pub fn message(&self) -> (text: String)
        ensures
            self is CyclicDependency ==> text@ == "Cyclic dependency detected for "@ + self->CyclicDependency_0@
                + ". The component is depending on itself."@,
            self is MissingTag ==> text@ == "Could not find component with tag "@ + self->MissingTag_0@
                + " in model."@,
            self is DuplicateTag ==> text@ == "Component with tag "@ + self->DuplicateTag_0@
                + " already present in model."@,
            self is TagGenerationFailed ==> text@ == "Failed to generate increment for tag "@
                + self->TagGenerationFailed_0@ + "."@,
            self is MissingOutput ==> text@ == "Failed to generate output as no output node specified."@,
            self is MissingConfig ==> text@
                == "Failed to generate output as no config is specified for the model."@,
            self is Custom ==> text@ == self->Custom_0@,
            self matches ModelError::InputIndexOutOfRange { component, num_inputs, index } ==> text@
                == "Input index out of bounds for component "@ + component@ + ". The recieved index ("@ + decimal(
                index as nat,
            ) + ") is larger than the input count for the component ("@ + decimal(num_inputs as nat) + ")"@,
            self matches ModelError::IncorrectInputCount { component, num_inputs, count } ==> text@
                == "Incorrect inputs for component "@ + component@ + ". The recieved number ("@ + decimal(count as nat)
                + ") is larger than the input count for the component ("@ + decimal(num_inputs as nat) + ")"@,
            self matches ModelError::MissingInput { component, index } ==> text@ == "Component "@ + component@
                + " is missing an input at index "@ + decimal(index as nat) + ". The model cannot be computed."@,
    {
        match self {
            ModelError::CyclicDependency(component) => message3(
                "Cyclic dependency detected for ",
                component.as_str(),
                ". The component is depending on itself.",
            ),
            ModelError::MissingTag(tag) => message3(
                "Could not find component with tag ",
                tag.as_str(),
                " in model.",
            ),
            ModelError::DuplicateTag(tag) => message3(
                "Component with tag ",
                tag.as_str(),
                " already present in model.",
            ),
            ModelError::InputIndexOutOfRange { component, num_inputs, index } => {
                let mut s = message3("Input index out of bounds for component ", component.as_str(), ". The recieved index (");
                s.append(decimal_text(*index).as_str());
                s.append(") is larger than the input count for the component (");
                s.append(decimal_text(*num_inputs).as_str());
                s.append(")");
                s
            },
            ModelError::IncorrectInputCount { component, num_inputs, count } => {
                let mut s = message3("Incorrect inputs for component ", component.as_str(), ". The recieved number (");
                s.append(decimal_text(*count).as_str());
                s.append(") is larger than the input count for the component (");
                s.append(decimal_text(*num_inputs).as_str());
                s.append(")");
                s
            },
            ModelError::MissingInput { component, index } => {
                let mut s = message3("Component ", component.as_str(), " is missing an input at index ");
                s.append(decimal_text(*index).as_str());
                s.append(". The model cannot be computed.");
                s
            },
            ModelError::TagGenerationFailed(tag) => message3(
                "Failed to generate increment for tag ",
                tag.as_str(),
                ".",
            ),
            ModelError::MissingOutput() => String::from_str(
                "Failed to generate output as no output node specified.",
            ),
            ModelError::MissingConfig() => String::from_str(
                "Failed to generate output as no config is specified for the model.",
            ),
            ModelError::Custom(message) => message.clone(),
        }
    }
}

} // verus!
