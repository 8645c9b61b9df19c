//! The error value that tool handlers return.
use vstd::prelude::*;
use crate::text::{append_chars, append_str, chars_of, string_of};



verus! {

/// What kind of failure an error reports.
#[derive(Debug, Clone, Copy, PartialEq, Eq, Structural)]
pub enum ErrorKind {
    /// The caller supplied arguments that cannot be served.
    InvalidParams,
    /// The harness failed while serving a valid request.
    InternalError,
    /// The requested resource does not exist.
    ResourceNotFound,
}

/// An error with its kind and human-readable message.
#[derive(Debug, Clone)]
pub struct McpError {
    pub kind: ErrorKind,
    pub message: String,
}

impl McpError {
    pub fn invalid_params(message: String) -> (e: McpError)
        ensures
            e.kind == ErrorKind::InvalidParams,
            e.message@ == message@,
    {
        McpError { kind: ErrorKind::InvalidParams, message }
    }

    pub fn internal_error(message: String) -> (e: McpError)
        ensures
            e.kind == ErrorKind::InternalError,
            e.message@ == message@,
    {
        McpError { kind: ErrorKind::InternalError, message }
    }

    pub fn resource_not_found(message: String) -> (e: McpError)
        ensures
            e.kind == ErrorKind::ResourceNotFound,
            e.message@ == message@,
    {
        McpError { kind: ErrorKind::ResourceNotFound, message }
    }

    /// The message text.
    pub fn to_string(&self) -> (s: String)
        ensures
            s@ == self.message@,
    {
        let v = chars_of(self.message.as_str());
        string_of(v.as_slice())
    }
}

/// A `String` copy of a literal or borrowed string.
pub fn owned(a: &str) -> (s: String)
    ensures
        s@ == a@,
{
    let v = chars_of(a);
    string_of(v.as_slice())
}

} // verus!
