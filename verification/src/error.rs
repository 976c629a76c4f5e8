//! The ways in which a call into this library fails.

use vstd::prelude::*;

verus! {

/// Why a session with the service could not go on. Every failure is handed
/// to the caller as it is: nothing is retried and nothing is filled in.
#[derive(Clone, Copy, Debug, PartialEq, Eq, Structural)]
pub enum ComciganError {
    /// The transport could not deliver a response.
    Transport,
    /// The bootstrap page no longer holds one of the anchors that the field
    /// names are read from.
    SchemaNotFound,
    /// The response is a JSON object that lacks a field it must have.
    MissingField,
    /// The response is no JSON, or its values do not have the expected shape.
    MalformedPayload,
    /// A timetable cell points outside the subject or the teacher table.
    CodeDecode,
    /// A search that had to match a school matched none.
    EmptyResult,
}

impl ComciganError {
    /// A short description of the failure.
    pub fn message(&self) -> (out: &'static str)
        ensures
            out@ == match *self {
                ComciganError::Transport => "transport failure"@,
                ComciganError::SchemaNotFound => "schema anchors not found"@,
                ComciganError::MissingField => "missing field"@,
                ComciganError::MalformedPayload => "malformed payload"@,
                ComciganError::CodeDecode => "timetable code out of range"@,
                ComciganError::EmptyResult => "no school matched"@,
            },
    {
        match self {
            ComciganError::Transport => "transport failure",
            ComciganError::SchemaNotFound => "schema anchors not found",
            ComciganError::MissingField => "missing field",
            ComciganError::MalformedPayload => "malformed payload",
            ComciganError::CodeDecode => "timetable code out of range",
            ComciganError::EmptyResult => "no school matched",
        }
    }
}

} // verus!
