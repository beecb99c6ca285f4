//! The kinds of failure a caller can observe.

use vstd::prelude::*;

verus! {

/// How a failed operation is reported at the boundary.
#[derive(Clone, Copy, Debug, PartialEq, Eq, Structural)]
pub enum ErrorKind {
    /// The input is malformed: an address that is not 20 bytes of hex, a salt
    /// that does not decode to exactly 32 bytes.
    BadRequest,
    /// The payment link asked for does not exist.
    NotFound,
    /// The claim is refused because of the state the link is in.
    Conflict,
    /// The node or the store failed, or the node's answer cannot be decoded.
    Internal,
}

} // verus!
