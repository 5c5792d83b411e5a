//! Error taxonomy shared across query building, decoding, and the retry policy.

use vstd::prelude::*;

verus! {

/// Error type returned by this crate.
///
/// - `ValidationError`: input validation failed before any request is built.
/// - `DecodeError`: a response payload violates the documented shape.
/// - `TransportError`: network-level failure reported by the transport.
/// - `ApiError`: the server reported a logical failure (`STATUS != 200`)
///   after a successful decode.
#[derive(Debug, Clone, PartialEq, Eq)]
pub enum BojError {
    /// Input validation failed before sending a request.
    ValidationError(String),
    /// Response decoding failed for structured or tabular payloads.
    DecodeError(String),
    /// Transport-level failure (network, HTTP client, invalid request shape).
    TransportError(String),
    /// API-level error represented by server status and message fields.
    ApiError {
        /// Server `STATUS` value.
        status: u16,
        /// Server `MESSAGEID` value.
        message_id: String,
        /// Server `MESSAGE` value.
        message: String,
    },
}

impl BojError {
    /// Creates [`BojError::ValidationError`] from a message.
    pub fn validation(message: &str) -> (r: Self)
        ensures
            r matches BojError::ValidationError(m) && m@ == message@,
    {
        BojError::ValidationError(String::from_str(message))
    }

    /// Creates [`BojError::DecodeError`] from a message.
    pub fn decode(message: &str) -> (r: Self)
        ensures
            r matches BojError::DecodeError(m) && m@ == message@,
    {
        BojError::DecodeError(String::from_str(message))
    }

    /// Creates [`BojError::TransportError`] from a message.
    pub fn transport(message: &str) -> (r: Self)
        ensures
            r matches BojError::TransportError(m) && m@ == message@,
    {
        BojError::TransportError(String::from_str(message))
    }

    /// Creates [`BojError::ApiError`] from status and message fields.
    pub fn api(status: u16, message_id: &str, message: &str) -> (r: Self)
        ensures
            r matches BojError::ApiError { status: s, message_id: mi, message: m }
                && s == status && mi@ == message_id@ && m@ == message@,
    {
        BojError::ApiError {
            status,
            message_id: String::from_str(message_id),
            message: String::from_str(message),
        }
    }
}

} // verus!
