//! Error kinds surfaced by the library.

use vstd::prelude::*;

verus! {

/// Detail carried by a protocol failure: either an error code returned by the
/// authorization server, an unexpected HTTP status, or a body that could not
/// be decoded at all.
pub enum ProtocolFault {
    ErrorCode(String),
    HttpStatus(u16),
    MalformedBody,
}

/// Every failure the library reports.
pub enum SwitchError {
    /// Malformed or unexpected remote response.
    Protocol(ProtocolFault),
    /// The device code's validity window is exhausted.
    Expired,
    /// The user declined the authorization request.
    AccessDenied,
    /// No identity with the given id exists.
    NotFound(String),
    /// A record with the same remote numeric account id already exists.
    Conflict(i64),
    /// The persistence layer failed.
    Storage(String),
    /// Filesystem or environment failure.
    System(String),
}

impl ProtocolFault {
    /// A field-for-field copy.
    pub fn duplicate(&self) -> (r: ProtocolFault)
        ensures
            r == *self,
    {
        match self {
            ProtocolFault::ErrorCode(c) => ProtocolFault::ErrorCode(c.clone()),
            ProtocolFault::HttpStatus(s) => ProtocolFault::HttpStatus(*s),
            ProtocolFault::MalformedBody => ProtocolFault::MalformedBody,
        }
    }
}

} // verus!
