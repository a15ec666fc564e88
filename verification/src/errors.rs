//! The error taxonomy of one database operation, and how each error is collapsed
//! to the single string-typed error surfaced at the operation boundary.

use vstd::prelude::*;

verus! {

/// Why the registry could not serve a checkout: the identity has no registered
/// slot, or the registry's channel is gone because the process is shutting down.
#[derive(Clone, Copy, Debug, PartialEq, Eq, Structural)]
pub enum RegistryFailure {
    NotFound,
    ChannelClosed,
}

/// Why a transport call failed: the transport itself (network, serialization,
/// authentication), or the database rejecting the request.  Both carry the
/// message produced at the transport boundary.
#[derive(Debug)]
pub enum CallFailure {
    Transport(String),
    Database(String),
}

/// Everything that can go wrong with one operation, before it is collapsed to a
/// single string by `message`.
#[derive(Debug)]
pub enum OpError {
    IdentityNotFound,
    InternalProtocolFailure,
    Transport(String),
    Database(String),
}

impl OpError {
    /// The string surfaced to the caller for this error.
    pub open spec fn message_spec(self) -> Seq<char> {
        match self {
            OpError::IdentityNotFound => "connection does not exist"@,
            OpError::InternalProtocolFailure => "connection registry is unavailable"@,
            OpError::Transport(s) => s@,
            OpError::Database(s) => s@,
        }
    }

    /// Collapse this error to the string the operation boundary reports.
    pub fn message(self) -> (m: String)
        ensures
            m@ == self.message_spec(),
    {
        match self {
            OpError::IdentityNotFound => String::from_str("connection does not exist"),
            OpError::InternalProtocolFailure => String::from_str("connection registry is unavailable"),
            OpError::Transport(s) => s,
            OpError::Database(s) => s,
        }
    }
}

} // verus!
