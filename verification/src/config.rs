//! Environment-variable configuration as plain values.
//!
//! Reading the process environment is the caller's business; the crate
//! only fixes the shape of the configuration and its defaults.

use vstd::prelude::*;

verus! {

/// Holds environment variables deserialized to a struct.
pub struct Config {
    pub rust_log: String,
    pub secret_key: String,
}

/// Default value for the log filter.
pub fn default_log() -> (r: String)
    ensures
        r@ == "actix-web=debug"@,
{
    String::from_str("actix-web=debug")
}

impl Config {
    /// A configuration from an explicit secret key, with the default log
    /// filter.
    pub fn with_secret(secret_key: String) -> (r: Config)
        ensures
            r.secret_key == secret_key,
            r.rust_log@ == "actix-web=debug"@,
    {
        Config { rust_log: default_log(), secret_key }
    }
}

} // verus!
