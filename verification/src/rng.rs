//! Randomness for the once-per-process endpoint identifiers.

use vstd::prelude::*;

verus! {

/// Relies on `rand::random`: draws a `u32` from the thread-local generator.
/// Nothing can be promised of a random value, so nothing is.
#[verifier::external_body]
pub(crate) fn random_u32() -> u32 {
    rand::random()
}

} // verus!
