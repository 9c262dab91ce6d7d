//! The error taxonomy of the connection lifecycle, and the classifier that
//! decides which failures a reconnect may retry.

use vstd::prelude::*;

verus! {

/// The error type of `std::io`, declared so that an I/O failure can carry
/// the underlying operating-system cause through the library unchanged.
/// Relies on `std::io::Error` being an ordinary non-generic type.
#[verifier::external_type_specification]
#[verifier::external_body]
pub struct ExIoError(std::io::Error);

/// A failure raised while establishing a connection. Every failure surfaced
/// to a caller belongs to exactly one of these tags; none is swallowed.
pub enum ConnectError {
    /// The target or proxy address string is not a valid socket-address
    /// literal; carries the offending string. A configuration error:
    /// never retried.
    AddrParseError(String),
    /// The handshake reported a protocol-level failure (authentication or
    /// peer-key mismatch, malformed message); carries the rendered cause.
    /// Fatal: a trust or protocol problem does not resolve by retrying.
    HandshakeError(String),
    /// Connecting, reading or writing failed at the operating-system level,
    /// including timeouts; carries the underlying cause. Assumed transient:
    /// eligible for retry.
    IOError(std::io::Error),
}

/// The classification the reconnect controller acts on: exactly the I/O
/// failures are transient.
pub open spec fn spec_retryable(e: ConnectError) -> bool {
    e is IOError
}

impl ConnectError {
    /// Decides retry eligibility: an I/O failure is assumed transient; an
    /// address-parse failure is a configuration error and a handshake
    /// failure an authentication or protocol mismatch, neither of which
    /// another attempt can mend.
    pub fn is_retryable(&self) -> (r: bool)
        ensures
            r == spec_retryable(*self),
    {
        match self {
            ConnectError::IOError(_) => true,
            ConnectError::HandshakeError(_) => false,
            ConnectError::AddrParseError(_) => false,
        }
    }

    /// A short human-readable account of the failure, offered in place of
    /// a `Display` implementation.
    pub fn message(&self) -> (r: String)
        ensures
            *self is AddrParseError ==> r@ == "Failure to parse address."@,
            *self is HandshakeError ==> r@ == "Handshake failure."@,
    {
        match self {
            ConnectError::AddrParseError(_) => "Failure to parse address.".to_owned(),
            ConnectError::HandshakeError(_) => "Handshake failure.".to_owned(),
            ConnectError::IOError(cause) => cause.to_string(),
        }
    }
}

impl From<std::io::Error> for ConnectError {
    /// Tags an operating-system failure as a transient I/O failure.
    fn from(error: std::io::Error) -> (r: Self) {
        ConnectError::IOError(error)
    }
}

impl vstd::std_specs::convert::FromSpecImpl<std::io::Error> for ConnectError {
    open spec fn obeys_from_spec() -> bool {
        true
    }

    open spec fn from_spec(error: std::io::Error) -> Self {
        ConnectError::IOError(error)
    }
}

/// How a connect-with-retry call ended when it did not end in a session.
/// The two variants let a caller tell "refused to retry" from "gave up
/// after the budgeted attempts".
pub enum RetryError {
    /// A non-retryable failure ended the attempts at once.
    Fatal(ConnectError),
    /// The attempt budget ran out while every failure seen was transient;
    /// carries how many attempts ran and the last failure observed.
    GaveUp { attempts: u32, last: ConnectError },
}

} // verus!
