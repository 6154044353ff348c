//! Errors of the batch system.

use vstd::prelude::*;
use vstd::string::*;

verus! {

/// A coarse classification of errors.
#[derive(Debug, Clone, Copy, PartialEq, Eq, Hash, Structural)]
pub enum ErrorCategory {
    Io,
    Connection,
    Processing,
    Timeout,
    Backpressure,
    Session,
    Crypto,
    CircuitBreaker,
    Unknown,
}

/// What went wrong in a batch operation.
#[derive(Debug, Clone)]
pub enum BatchError {
    Io(String),
    ConnectionError(String),
    ProcessingError(String),
    Timeout,
    Backpressure,
    InvalidSession(String),
    Crypto(String),
    ConnectionClosed(String),
    CircuitBreakerOpen(String),
}

impl BatchError {
    /// The text of the error.
    pub open spec fn text(self) -> Seq<char> {
        match self {
            BatchError::Io(s) => "IO error: "@ + s@,
            BatchError::ConnectionError(s) => "Connection error: "@ + s@,
            BatchError::ProcessingError(s) => "Processing error: "@ + s@,
            BatchError::Timeout => "Timeout error"@,
            BatchError::Backpressure => "Backpressure: too many pending operations"@,
            BatchError::InvalidSession(s) => "Invalid session: "@ + s@,
            BatchError::Crypto(s) => "Crypto error: "@ + s@,
            BatchError::ConnectionClosed(s) => "Connection closed: "@ + s@,
            BatchError::CircuitBreakerOpen(s) => "Circuit breaker open: "@ + s@,
        }
    }

    /// Renders the error.
    pub fn message(&self) -> (s: String)
        ensures
            s@ == self.text(),
    {
        match self {
            BatchError::Io(s) => String::from_str("IO error: ").concat(s.as_str()),
            BatchError::ConnectionError(s) => {
                String::from_str("Connection error: ").concat(s.as_str())
            },
            BatchError::ProcessingError(s) => {
                String::from_str("Processing error: ").concat(s.as_str())
            },
            BatchError::Timeout => String::from_str("Timeout error"),
            BatchError::Backpressure => {
                String::from_str("Backpressure: too many pending operations")
            },
            BatchError::InvalidSession(s) => {
                String::from_str("Invalid session: ").concat(s.as_str())
            },
            BatchError::Crypto(s) => String::from_str("Crypto error: ").concat(s.as_str()),
            BatchError::ConnectionClosed(s) => {
                String::from_str("Connection closed: ").concat(s.as_str())
            },
            BatchError::CircuitBreakerOpen(s) => {
                String::from_str("Circuit breaker open: ").concat(s.as_str())
            },
        }
    }
}

/// The result of a batch operation.
pub type BatchResult<T> = Result<T, BatchError>;

} // verus!
