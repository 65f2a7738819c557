//! Why a run stops.

use vstd::prelude::*;
use vstd::string::*;

verus! {

/// The failures that end a run. None of them is recovered from.
#[derive(Debug, PartialEq, Eq)]
pub enum GenError {
    /// The runtime name selects no runtime.
    UnknownRuntime,
    /// The document is not YAML.
    NotYaml,
    /// The document has no `paths`, or they are no mapping.
    PathsNotMapping,
    /// What stands under a path is no mapping of methods.
    MethodsNotMapping,
    /// The document has no `definitions`, or they are no mapping.
    DefinitionsNotMapping,
    /// A definition has no textual name, or its schema is no mapping.
    MalformedDefinition,
    /// An operation has no textual `summary`.
    MissingSummary,
    /// An operation has no textual `description`.
    MissingDescription,
    /// A tag of an operation is no text.
    TagNotText,
    /// The status code of a response is neither text nor a number.
    StatusNotCode,
    /// A response has no textual `description`.
    MissingResponseDescription,
    /// The template store holds no template of this name.
    MissingTemplate(String),
    /// A tree could not be written as YAML.
    NotSerializable,
}

/// What a [`GenError`] stands for.
pub enum Failure {
    UnknownRuntime,
    NotYaml,
    PathsNotMapping,
    MethodsNotMapping,
    DefinitionsNotMapping,
    MalformedDefinition,
    MissingSummary,
    MissingDescription,
    TagNotText,
    StatusNotCode,
    MissingResponseDescription,
    MissingTemplate(Seq<char>),
    NotSerializable,
}

impl View for GenError {
    type V = Failure;

    open spec fn view(&self) -> Failure {
        match self {
            GenError::UnknownRuntime => Failure::UnknownRuntime,
            GenError::NotYaml => Failure::NotYaml,
            GenError::PathsNotMapping => Failure::PathsNotMapping,
            GenError::MethodsNotMapping => Failure::MethodsNotMapping,
            GenError::DefinitionsNotMapping => Failure::DefinitionsNotMapping,
            GenError::MalformedDefinition => Failure::MalformedDefinition,
            GenError::MissingSummary => Failure::MissingSummary,
            GenError::MissingDescription => Failure::MissingDescription,
            GenError::TagNotText => Failure::TagNotText,
            GenError::StatusNotCode => Failure::StatusNotCode,
            GenError::MissingResponseDescription => Failure::MissingResponseDescription,
            GenError::MissingTemplate(name) => Failure::MissingTemplate(name@),
            GenError::NotSerializable => Failure::NotSerializable,
        }
    }
}

/// What is said of a failure to whoever started the run.
pub open spec fn message_of(failure: Failure) -> Seq<char> {
    match failure {
        Failure::UnknownRuntime => "runtime must be nodejs or csharp"@,
        Failure::NotYaml => "the document is not valid YAML"@,
        Failure::PathsNotMapping => "paths is not a mapping or malformed"@,
        Failure::MethodsNotMapping => "the methods of a path are not a mapping"@,
        Failure::DefinitionsNotMapping => "definitions is not a mapping or malformed"@,
        Failure::MalformedDefinition => "a definition is malformed"@,
        Failure::MissingSummary => "an operation has no summary"@,
        Failure::MissingDescription => "an operation has no description"@,
        Failure::TagNotText => "a tag is not a string"@,
        Failure::StatusNotCode => "a response status is neither a string nor a number"@,
        Failure::MissingResponseDescription => "a response has no description"@,
        Failure::MissingTemplate(name) => "template not found: "@ + name,
        Failure::NotSerializable => "a value could not be written as YAML"@,
    }
}

impl GenError {
    /// The message of this failure.
    pub fn message(&self) -> (text: String)
        ensures
            text@ == message_of(self@),
    {
        match self {
            GenError::UnknownRuntime => "runtime must be nodejs or csharp".to_owned(),
            GenError::NotYaml => "the document is not valid YAML".to_owned(),
            GenError::PathsNotMapping => "paths is not a mapping or malformed".to_owned(),
            GenError::MethodsNotMapping => "the methods of a path are not a mapping".to_owned(),
            GenError::DefinitionsNotMapping => "definitions is not a mapping or malformed".to_owned(),
            GenError::MalformedDefinition => "a definition is malformed".to_owned(),
            GenError::MissingSummary => "an operation has no summary".to_owned(),
            GenError::MissingDescription => "an operation has no description".to_owned(),
            GenError::TagNotText => "a tag is not a string".to_owned(),
            GenError::StatusNotCode => "a response status is neither a string nor a number".to_owned(),
            GenError::MissingResponseDescription => "a response has no description".to_owned(),
            GenError::MissingTemplate(name) => {
                let mut text = "template not found: ".to_owned();
                text.append(name.as_str());
                text
            },
            GenError::NotSerializable => "a value could not be written as YAML".to_owned(),
        }
    }
}

} // verus!
