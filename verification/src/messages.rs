//! Base message types for inter-component communication: request/response
//! envelopes, the result discriminator, and structured error information.

use vstd::prelude::*;

verus! {

/// Unique identifier for message correlation.
pub type MessageId = String;

/// Timestamp in milliseconds since the Unix epoch.
pub type Timestamp = u64;

/// Base message envelope for all requests.
pub struct Request<T> {
    /// Unique message ID for request/response matching.
    pub id: MessageId,
    /// Request timestamp.
    pub timestamp: Timestamp,
    /// Request payload.
    pub payload: T,
}

/// Base message envelope for all responses.
pub struct Response<T> {
    /// Matches the request ID.
    pub id: MessageId,
    /// Response timestamp.
    pub timestamp: Timestamp,
    /// Execution time in milliseconds.
    pub execution_time_ms: u32,
    /// Response result.
    pub result: MessageResult<T>,
}

/// Result wrapper for all responses.
pub enum MessageResult<T> {
    Success { data: T },
    Error { error: ErrorInfo },
}

/// Error information.
pub struct ErrorInfo {
    /// Error code for programmatic handling.
    pub code: ErrorCode,
    /// Human-readable error message.
    pub message: String,
    /// Optional additional details.
    pub details: Option<String>,
}

/// Standard error codes.
#[derive(Clone, Copy, Debug, PartialEq, Eq, Structural)]
pub enum ErrorCode {
    /// Resource not found.
    NotFound,
    /// Invalid query syntax.
    InvalidQuery,
    /// Failed to parse data.
    ParseError,
    /// Network request failed.
    NetworkError,
    /// Storage operation failed.
    StorageError,
    /// Authentication/authorization failed.
    AuthError,
    /// Operation cancelled.
    Cancelled,
    /// Resource limit exceeded.
    LimitExceeded,
    /// Unknown error.
    Unknown,
}

impl<T> MessageResult<T> {
    /// Create a success result.
    pub fn ok(data: T) -> (r: Self)
        ensures
            (r matches MessageResult::Success { data: d } && d == data),
    {
        MessageResult::Success { data }
    }

    /// Create an error result.
    pub fn error(code: ErrorCode, message: String) -> (r: Self)
        ensures
            (r matches MessageResult::Error { error: e }
                && e.code == code
                && e.message@ == message@
                && e.details is None),
    {
        MessageResult::Error { error: ErrorInfo { code, message, details: None } }
    }

    /// Create an error result with details.
    pub fn error_with_details(code: ErrorCode, message: String, details: String) -> (r: Self)
        ensures
            (r matches MessageResult::Error { error: e }
                && e.code == code
                && e.message@ == message@
                && (e.details matches Some(d) && d@ == details@)),
    {
        MessageResult::Error {
            error: ErrorInfo { code, message, details: Some(details) },
        }
    }

    /// Check if the result is ok.
    pub fn is_ok(&self) -> (r: bool)
        ensures
            r == (self is Success),
    {
        match self {
            MessageResult::Success { .. } => true,
            MessageResult::Error { .. } => false,
        }
    }

    /// Check if the result is an error.
    pub fn is_error(&self) -> (r: bool)
        ensures
            r == (self is Error),
    {
        match self {
            MessageResult::Success { .. } => false,
            MessageResult::Error { .. } => true,
        }
    }
}

} // verus!
