//! Errors surfaced by the protocol client.

use vstd::prelude::*;

verus! {

/// Why a request to the daemon, or the reading of its answer, failed.
#[derive(Clone, Debug, PartialEq, Eq)]
pub enum ClientError {
    /// The request could not be delivered or answered: refused connection,
    /// timeout, name resolution.
    Transport(String),
    /// The daemon answered with a result other than `"success"`, or with a
    /// body that does not have the expected shape.
    Protocol(String),
    /// The daemon asked for a new session token again after the one renewal.
    AuthRenewalExhausted,
    /// The client was built without a required setting.
    Config(String),
}

} // verus!
