//! The handle variant: a closed union over exactly the two transport kinds a
//! connection can be backed by.
//!
//! A handle is either a streaming connection (`WS`) or a stateless
//! request/response connection (`HTTP`).  Both support the same operations, so
//! nothing outside the transport call itself may depend on which case is
//! active: an operation matches on the variant once, calls the matching
//! transport's implementation, and re-wraps the client into the same variant so
//! it can go back into its slot.  The set is closed by design: a new transport
//! kind is a new case and a breaking change, not runtime polymorphism.
//!
//! The two payload types are the embedding runtime's concrete database clients;
//! this layer never looks inside them.

use vstd::prelude::*;

verus! {

/// Which transport backs a handle.
#[derive(Clone, Copy, Debug, PartialEq, Eq, Structural)]
pub enum TransportKind {
    Stream,
    RequestResponse,
}

/// A connection handle over one of the two supported transports.  Handles are
/// never cloned: a handle has exactly one live owner at any instant, and moves
/// between its slot and the one operation that checked it out.
#[derive(Debug, PartialEq)]
pub enum WrappedConnection<W, R> {
    WS(W),
    HTTP(R),
}

impl<W, R> WrappedConnection<W, R> {
    /// Which transport this handle is backed by.
    pub open spec fn kind_spec(&self) -> TransportKind {
        match self {
            WrappedConnection::WS(_) => TransportKind::Stream,
            WrappedConnection::HTTP(_) => TransportKind::RequestResponse,
        }
    }

    /// Route on the variant: the one place an operation may ask which
    /// transport's implementation must serve the call.
    pub fn kind(&self) -> (k: TransportKind)
        ensures
            k == self.kind_spec(),
    {
        match self {
            WrappedConnection::WS(_) => TransportKind::Stream,
            WrappedConnection::HTTP(_) => TransportKind::RequestResponse,
        }
    }
}

} // verus!
