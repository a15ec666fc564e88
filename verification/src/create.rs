//! The create operation: the piece of the operation template that is specific
//! to creating a record.
//!
//! A create follows the shared dispatcher template (checkout, transport call,
//! unconditional checkin) and resolves like every operation through
//! `dispatch::conclude`: success carries the database's returned value, failure
//! the error's message string.  What is create's own is the shape of its
//! request and what that request must satisfy before it is dispatched.

use vstd::prelude::*;

verus! {

/// The inputs of one create call as this layer sees them: which connection to
/// check out, and which table to write into.  The record payload is opaque to
/// the core and travels with the surrounding runtime straight to the transport.
pub struct CreateRequest {
    pub connection_id: String,
    pub table_name: String,
}

/// A create request is acceptable when its table name is non-empty; the shape
/// of the payload is the database's business, not this layer's.
pub fn validate_create(r: &CreateRequest) -> (ok: bool)
    ensures
        ok <==> r.table_name@.len() > 0,
{
    r.table_name.as_str().unicode_len() > 0
}

} // verus!
