//! A client-side connection manager: it establishes an authenticated,
//! encrypted session to a remote directory service over TCP, optionally
//! tunneled through a SOCKS5 proxy, with bounded exponential-backoff retry.
//!
//! The connection lifecycle is the verified core: validating the configured
//! addresses, classifying failures into a closed taxonomy that decides retry
//! eligibility, and driving the bounded backoff schedule. Socket I/O, the
//! cryptographic handshake library and the waits between attempts are
//! supplied by the surrounding runtime through small traits.

pub mod addr;
pub mod client;
pub mod errors;
pub mod reconnect;
