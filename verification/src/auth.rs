//! Token claims as plain values.
//!
//! Token encoding and decoding live outside this crate; the claims a
//! token carries are plain data, fixed here.

use vstd::prelude::*;

verus! {

/// JWT Auth Identity Claims
pub struct Claims {
    /// The subject (the user's email).
    pub sub: String,
    /// Expiry instant, seconds since the epoch.
    pub exp: usize,
    /// Issue instant, seconds since the epoch.
    pub iat: usize,
    /// The issuing workflow.
    pub iss: String,
}

impl Claims {
    /// Claims for a subject, issued at `iat` and expiring at `exp`.
    pub fn new(sub: String, iat: usize, exp: usize, iss: String) -> (r: Claims)
        ensures
            r.sub == sub,
            r.iat == iat,
            r.exp == exp,
            r.iss == iss,
    {
        Claims { sub, exp, iat, iss }
    }
}

} // verus!
