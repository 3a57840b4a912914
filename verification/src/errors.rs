//! The error kinds the activator surfaces.

use vstd::prelude::*;

verus! {

/// Everything that can go wrong in one activation run.  None of these are
/// retried: each run is a single attempt and the outcome is surfaced whole.
#[derive(Clone, Copy, Debug, PartialEq, Eq, Structural)]
pub enum ActivatorError {
    /// Wrong count or empty value among the required command tokens;
    /// raised before any network activity.
    InvalidArguments,
    /// The broker endpoint is unreachable or rejected the connection.
    ConnectionFailure,
    /// Bytes that do not conform to the wire schema: truncated, wrong wire
    /// type for a known tag, or invalid UTF-8 in a string field.
    MalformedMessage,
    /// A request-reply dispatch saw no correlated reply within the window.
    Timeout,
    /// Any other failure from the underlying bus client.
    TransportError,
}

/// The operator-facing word for each error kind.
pub open spec fn error_text(e: ActivatorError) -> Seq<char> {
    match e {
        ActivatorError::InvalidArguments => "invalid arguments"@,
        ActivatorError::ConnectionFailure => "connection failure"@,
        ActivatorError::MalformedMessage => "malformed message"@,
        ActivatorError::Timeout => "timeout"@,
        ActivatorError::TransportError => "transport error"@,
    }
}

impl ActivatorError {
    /// A short description of the error kind.
    pub fn describe(&self) -> (r: &'static str)
        ensures
            r@ == error_text(*self),
    {
        match self {
            ActivatorError::InvalidArguments => "invalid arguments",
            ActivatorError::ConnectionFailure => "connection failure",
            ActivatorError::MalformedMessage => "malformed message",
            ActivatorError::Timeout => "timeout",
            ActivatorError::TransportError => "transport error",
        }
    }
}

} // verus!
