//! The only door to the pseudorandom generator: a declaration of rand's
//! `StdRng` and one raw-draw wrapper. Nothing is assumed about the values
//! drawn; every consumer is verified for every possible outcome.

use vstd::prelude::*;

use rand::Rng;

verus! {

#[verifier::external_type_specification]
#[verifier::external_body]
pub struct ExStdRng(rand::rngs::StdRng);

/// Relies on rand's `Rng::next_u32` for `StdRng`: advances the generator
/// and returns a 32-bit value. No distribution property is assumed.
#[verifier::external_body]
pub(crate) fn next_u32(rng: &mut rand::rngs::StdRng) -> u32 {
    rng.next_u32()
}

} // verus!
