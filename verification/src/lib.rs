//! Search for X25519 key pairs whose base64-encoded public key matches a
//! user-supplied pattern.
//!
//! The crate generates random clamped scalars, derives the matching public
//! key, renders it in the standard base64 alphabet, and tests the rendering
//! against a compiled pattern, repeating until a match is found.  A rate
//! estimator samples the generate-encode-test step to report throughput.

pub mod encoding;
pub mod keys;
pub mod matcher;
pub mod output;
pub mod rate;
pub mod search;
