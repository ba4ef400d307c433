//! What the library keeps of a failed HTTP request.

use vstd::prelude::*;

verus! {

/// A network request that failed: the HTTP status the server answered with, if it answered,
/// and a description of the failure.
#[derive(Debug, Clone, PartialEq, Eq)]
pub struct RequestFailure {
    pub status: Option<u16>,
    pub message: String,
}

/// The HTTP status that marks an expired or invalid session.
pub const HTTP_UNAUTHORIZED: u16 = 401;

} // verus!
