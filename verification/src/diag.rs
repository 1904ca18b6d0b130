//! The diagnostics a generator can report.  Every failure is a value of
//! [`DeriveError`]; generation is all-or-nothing, so one error aborts the
//! whole enum.  The variant index stands in for the source location that a
//! compile-time diagnostic would point at.

use vstd::prelude::*;

verus! {

/// A named field of a metadata annotation.
#[derive(Clone, Copy, Debug, PartialEq, Eq, Structural)]
pub enum FieldKind {
    /// The `status_code` field of a `response_error` annotation.
    StatusCode,
    /// The `error_code` field of either annotation.
    ErrorCode,
}

/// A compile-time diagnostic of either generator.
#[derive(Clone, Copy, Debug, PartialEq, Eq, Structural)]
pub enum DeriveError {
    /// The annotated declaration is not an enum.
    NotAnEnum,
    /// The variant at this index carries no matching annotation.
    MissingAttribute { variant: usize },
    /// The annotation's arguments do not parse as comma-separated
    /// `name = value` pairs.
    MalformedAttribute { variant: usize },
    /// A required field is absent from an otherwise well-formed annotation.
    MissingField { variant: usize, field: FieldKind },
    /// A field's value is not an integer literal of the required width.
    InvalidFieldType { variant: usize, field: FieldKind },
    /// The `status_code` value does not name a recognized HTTP status.
    UnknownStatusCode { variant: usize },
}

impl DeriveError {
    /// The diagnostic text, as the surrounding build would print it.
    pub fn message(&self) -> (r: &'static str)
        ensures
            r@ == self.spec_message(),
    {
        match self {
            DeriveError::NotAnEnum => "an enum is expected",
            DeriveError::MissingAttribute { .. } => "the metadata attribute was not found",
            DeriveError::MalformedAttribute { .. } => "failed to parse the attribute arguments",
            DeriveError::MissingField { field: FieldKind::StatusCode, .. } => {
                "status_code not found in the attribute fields"
            },
            DeriveError::MissingField { field: FieldKind::ErrorCode, .. } => {
                "error_code not found in the attribute fields"
            },
            DeriveError::InvalidFieldType { field: FieldKind::StatusCode, .. } => {
                "status_code must be u16"
            },
            DeriveError::InvalidFieldType { field: FieldKind::ErrorCode, .. } => {
                "error_code must be u32"
            },
            DeriveError::UnknownStatusCode { .. } => "status_code must be well-known code",
        }
    }

    /// The text that [`DeriveError::message`] returns.
    pub open spec fn spec_message(&self) -> Seq<char> {
        match self {
            DeriveError::NotAnEnum => "an enum is expected"@,
            DeriveError::MissingAttribute { .. } => "the metadata attribute was not found"@,
            DeriveError::MalformedAttribute { .. } => "failed to parse the attribute arguments"@,
            DeriveError::MissingField { field: FieldKind::StatusCode, .. } => {
                "status_code not found in the attribute fields"@
            },
            DeriveError::MissingField { field: FieldKind::ErrorCode, .. } => {
                "error_code not found in the attribute fields"@
            },
            DeriveError::InvalidFieldType { field: FieldKind::StatusCode, .. } => {
                "status_code must be u16"@
            },
            DeriveError::InvalidFieldType { field: FieldKind::ErrorCode, .. } => {
                "error_code must be u32"@
            },
            DeriveError::UnknownStatusCode { .. } => "status_code must be well-known code"@,
        }
    }
}

} // verus!
