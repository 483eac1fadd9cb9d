//! The source of random numbers.

use rand::Rng;
use vstd::prelude::*;

verus! {

/// Draws a number between `low` and `high`, both included.
///
/// Not verified: the body calls `rand::Rng::gen_range` with the range
/// `low..=high` on the generator that `rand::thread_rng` hands out. The
/// contract claims only what `gen_range` documents, that the number lies in
/// the range; `gen_range` panics on an empty range, which `requires` rules out.
#[verifier::external_body]
pub(crate) fn random_in_range(low: u16, high: u16) -> (r: u16)
    requires
        low <= high,
    ensures
        low <= r <= high,
{
    rand::thread_rng().gen_range(low..=high)
}

/// Draws a byte.
pub(crate) fn random_byte() -> u8 {
    let drawn: u16 = random_in_range(0, 255);
    drawn as u8
}

} // verus!
