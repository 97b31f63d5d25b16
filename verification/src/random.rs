//! Random draws, taken from the `rand` crate.

use rand::Rng;
use vstd::prelude::*;

verus! {

/// Draws a number from the half-open range `low..high` with
/// `rand::thread_rng().gen_range(low..high)`.
///
/// Trusted: the number drawn lies in the range. Which number it is depends
/// on chance, so nothing more is claimed, and two draws may differ.
/// `gen_range` panics on an empty range, which the precondition excludes;
/// the generator itself is seeded from the operating system on first use.
#[verifier::external_body]
pub(crate) fn random_in_range(low: u64, high: u64) -> (drawn: u64)
    requires
        low < high,
    ensures
        low <= drawn < high,
{
    rand::thread_rng().gen_range(low..high)
}

/// Draws any 16-bit number with `rand::random::<u16>()`. Trusted as to its
/// returning at all; nothing is claimed of the number.
#[verifier::external_body]
pub(crate) fn random_u16() -> u16 {
    rand::random::<u16>()
}

} // verus!
