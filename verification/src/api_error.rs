//! The errors the API layer answers with.

use vstd::prelude::*;

verus! {

/// An error of an API request.
#[derive(Clone, Debug, PartialEq, Eq)]
pub enum ApiError {
    /// The request itself is not acceptable; the message says why.
    InvalidInput(String),
    /// A named resource does not exist.
    NotFound { resource: String, id: String },
    /// The server could not assemble the answer: what it was doing, and what
    /// went wrong.
    InternalAssembly { context: String, detail: String },
}

impl ApiError {
    /// An invalid-input error with this message.
    pub fn invalid_input(message: &str) -> (r: Self)
        ensures
            r matches ApiError::InvalidInput(m) && m@ == message@,
    {
        ApiError::InvalidInput(crate::text::str_to_string(message))
    }
}

/// The errors of the App Server protocol, by name.
#[derive(Clone, Copy, Debug, PartialEq, Eq, Structural)]
pub enum ProtocolErrorKind {
    InvalidParams,
    InvalidRequest,
    MethodNotFound,
    NotInitialized,
    AlreadyInitialized,
    SessionNotFound,
    RequestConflict,
    RequestTimeout,
    RequestCancelled,
    ServerOverloaded,
    Internal,
}

/// The protocol error an API error is answered with, and whether the
/// answer tells the client it may retry (`None` where it says nothing).
pub open spec fn api_error_answer(e: ApiError) -> (ProtocolErrorKind, Option<bool>) {
    match e {
        ApiError::InvalidInput(_) => (ProtocolErrorKind::InvalidParams, None),
        ApiError::NotFound { .. } => (ProtocolErrorKind::SessionNotFound, None),
        ApiError::InternalAssembly { .. } => (ProtocolErrorKind::Internal, Some(true)),
    }
}

/// The protocol error an API error is answered with (see
/// [`api_error_answer`]).
pub fn api_error_protocol(e: &ApiError) -> (r: (ProtocolErrorKind, Option<bool>))
    ensures
        r == api_error_answer(*e),
{
    match e {
        ApiError::InvalidInput(_) => (ProtocolErrorKind::InvalidParams, None),
        ApiError::NotFound { .. } => (ProtocolErrorKind::SessionNotFound, None),
        ApiError::InternalAssembly { .. } => (ProtocolErrorKind::Internal, Some(true)),
    }
}

} // verus!
