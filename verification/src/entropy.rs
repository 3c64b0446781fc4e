//! The source of random bytes.

use vstd::prelude::*;

verus! {

/// Draws one byte from `rand::random`, which takes it from the generator of
/// the calling thread. Nothing is claimed of the byte: every value can come
/// back, and two calls need not agree. `rand` panics where the operating
/// system cannot seed the generator.
#[verifier::external_body]
pub(crate) fn random_byte() -> u8 {
    rand::random()
}

} // verus!
