use vstd::prelude::*;

verus! {

/// Failures surfaced by the acquisition layer.
#[derive(Debug, Clone, PartialEq, Eq)]
pub enum SysProbeError {
    /// A call into the host API failed with the given status code.
    WindowsAPIError(i32),
    /// A timestamp could not be decoded.
    DateTimeParsingError,
    /// A buffer of the reported size could not be laid out.
    LayoutError,
    /// A required environment variable was absent or not text.
    EnvironmentVariableError,
    /// A row lacks a field that a record needs.
    MissingField(String),
    /// A field holds text that does not have the shape a record needs.
    InvalidField(String),
    /// Fetching the named field of a row failed.
    FieldFetchError(String),
    /// A query run was handed an event that does not fit its phase.
    UnexpectedQueryEvent,
}

} // verus!
