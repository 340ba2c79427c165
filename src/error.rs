use vstd::prelude::*;

verus! {

/// Why a node descriptor was refused.
#[derive(Debug, Clone, PartialEq)]
pub enum ValidationError {
    /// A required member is absent.
    MissingField(String),
    /// A member holds a value of the wrong kind.
    TypeMismatch(String),
}

/// The mathematical value of a [`ValidationError`].
pub enum FieldFault {
    Missing(Seq<char>),
    Mismatch(Seq<char>),
}

impl View for ValidationError {
    type V = FieldFault;

    open spec fn view(&self) -> FieldFault {
        match self {
            ValidationError::MissingField(f) => FieldFault::Missing(f@),
            ValidationError::TypeMismatch(f) => FieldFault::Mismatch(f@),
        }
    }
}

/// The ways in which a query fails.
#[derive(Debug, Clone, PartialEq)]
pub enum DbtError {
    /// The project directory or the cached manifest is missing, or the tool
    /// could not be started; holds what was attempted.
    SourceUnavailable(String),
    /// The tool exited with a failure; holds what it wrote to stderr.
    ToolFailed(String),
    /// The cleaned output is not JSON; holds that text.
    Normalization(String),
    /// A descriptor was refused.
    Validation(ValidationError),
    /// No node matches the identifier; holds the identifier.
    NotFound(String),
}

} // verus!
