//! A lost-and-found registry for identification cards.
//!
//! Users post found identification cards and register claims describing a
//! card they lost.  The heart of the crate is a fuzzy matching engine that
//! pairs claims with identifications: a character-bag cosine similarity
//! scorer, a weighted field comparator with a fixed acceptance threshold,
//! institution-scoped candidate selection, idempotent match persistence and
//! a duplicate-submission guard.  Every function here carries a contract
//! checked by Verus; the arithmetic of the scorer is exact (integer
//! rationals and their squares) rather than floating point, so the
//! acceptance threshold is decided precisely.

pub mod auth;
pub mod comparator;
pub mod config;
pub mod cosine;
pub mod counts;
pub mod dates;
pub mod errors;
pub mod institution;
pub mod levenshtein;
pub mod models;
pub mod registry;
pub mod response;
pub mod utils;
pub mod wide;
