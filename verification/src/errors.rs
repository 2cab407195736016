//! The error type surfaced by every fallible operation of the registry.

use vstd::prelude::*;

verus! {

/// Status code for a rejected duplicate or an invalid state transition.
pub const CONFLICT: u16 = 409;

/// Status code for a reference to a record that does not exist.
pub const NOT_FOUND: u16 = 404;

/// Status code for a caller acting on a record they do not own.
pub const UNAUTHORIZED: u16 = 401;

/// Status code for input rejected by field validation.
pub const BAD_REQUEST: u16 = 400;

/// An error carrying a human-readable message and an HTTP-like status code.
#[derive(Debug)]
pub struct ResError {
    /// Error message
    pub msg: String,
    /// Status code
    pub status: u16,
}

impl ResError {
    /// Create a new instance of the ResError
    pub fn new(msg: String, status: u16) -> (r: Self)
        ensures
            r.msg == msg,
            r.status == status,
    {
        Self { msg, status }
    }

    /// Returns an Unauthorized error response
    /// Status: 401
    pub fn unauthorized() -> (r: Self)
        ensures
            r.status == UNAUTHORIZED,
    {
        Self { msg: String::from_str("Oopsy! It seems you are not allowed to do that"), status: 401 }
    }

    /// Returns a NOT FOUND error response
    /// Status: 404
    pub fn not_found() -> (r: Self)
        ensures
            r.status == NOT_FOUND,
    {
        Self { msg: String::from_str("Resource not found"), status: 404 }
    }
}

} // verus!
