//! The randomness capability: fresh opaque identifiers for aggregation
//! jobs, collect jobs, fixed-size batches and reports.

use vstd::prelude::*;
use crate::messages::Id;

verus! {

/// Relies on rand::random: 32 bytes drawn from the thread-local
/// generator. Nothing holds of the value drawn.
#[verifier::external_body]
fn random_id_bytes() -> (r: [u8; 32]) {
    rand::random()
}

/// A freshly drawn opaque identifier.
pub fn random_id() -> (r: Id) {
    Id { bytes: random_id_bytes() }
}

/// Relies on rand::random: one 64-bit integer drawn from the
/// thread-local generator. Nothing holds of the value drawn.
#[verifier::external_body]
pub(crate) fn random_u64() -> (r: u64) {
    rand::random()
}

} // verus!
