//! Errors of the packet protocol.

use vstd::prelude::*;
use vstd::string::*;

use crate::text::{decimal, decimal_string};

verus! {

/// What went wrong in a cryptographic step.
#[derive(Debug, Clone)]
pub enum CryptoError {
    InvalidKeyLength { expected: usize, actual: usize },
    HmacVerificationFailed,
    DecryptionFailed { reason: String },
}

/// What went wrong with a packet.
#[derive(Debug, Clone)]
pub enum ProtocolError {
    MalformedPacket { details: String },
    Crypto { source: CryptoError },
    /// A reply did not arrive within the given number of milliseconds.
    Timeout { duration_ms: u64 },
}

impl CryptoError {
    /// The text of the error.
    pub open spec fn text(self) -> Seq<char> {
        match self {
            CryptoError::InvalidKeyLength { expected, actual } => "Invalid key length: expected "@
                + decimal(expected as nat) + ", got "@ + decimal(actual as nat),
            CryptoError::HmacVerificationFailed => "HMAC verification failed"@,
            CryptoError::DecryptionFailed { reason } => "Decryption failed: "@ + reason@,
        }
    }

    /// Renders the error.
    pub fn message(&self) -> (s: String)
        ensures
            s@ == self.text(),
    {
        match self {
            CryptoError::InvalidKeyLength { expected, actual } => {
                String::from_str("Invalid key length: expected ").concat(
                    decimal_string(*expected as u64).as_str(),
                ).concat(", got ").concat(decimal_string(*actual as u64).as_str())
            },
            CryptoError::HmacVerificationFailed => String::from_str("HMAC verification failed"),
            CryptoError::DecryptionFailed { reason } => {
                String::from_str("Decryption failed: ").concat(reason.as_str())
            },
        }
    }
}

impl ProtocolError {
    /// The text of the error.
    pub open spec fn text(self) -> Seq<char> {
        match self {
            ProtocolError::MalformedPacket { details } => "Malformed packet: "@ + details@,
            ProtocolError::Crypto { source } => "Crypto error: "@ + source.text(),
            ProtocolError::Timeout { duration_ms } => "Timeout after "@ + decimal(
                duration_ms as nat,
            ) + "ms"@,
        }
    }

    /// Renders the error.
    pub fn message(&self) -> (s: String)
        ensures
            s@ == self.text(),
    {
        match self {
            ProtocolError::MalformedPacket { details } => {
                String::from_str("Malformed packet: ").concat(details.as_str())
            },
            ProtocolError::Crypto { source } => {
                String::from_str("Crypto error: ").concat(source.message().as_str())
            },
            ProtocolError::Timeout { duration_ms } => {
                String::from_str("Timeout after ").concat(
                    decimal_string(*duration_ms).as_str(),
                ).concat("ms")
            },
        }
    }
}

} // verus!
