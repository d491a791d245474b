//! Random numbers, as the thread-local generator of `rand` hands them out.
//!
//! Nothing is known of a roll beforehand; whatever is built on one is stated
//! for every value that it can take. The generator seeds itself from the
//! operating system on first use and stops the program if that fails.

use vstd::prelude::*;

verus! {

/// `rand::random::<usize>()`: any `usize`.
#[verifier::external_body]
pub(crate) fn roll_usize() -> (roll: usize) {
    rand::random::<usize>()
}

/// `rand::random::<u32>()`: any `u32`.
#[verifier::external_body]
pub(crate) fn roll_u32() -> (roll: u32) {
    rand::random::<u32>()
}

/// `rand::random::<u8>()`: any `u8`.
#[verifier::external_body]
pub(crate) fn roll_u8() -> (roll: u8) {
    rand::random::<u8>()
}

/// `rand::random::<bool>()`: either truth value.
#[verifier::external_body]
pub(crate) fn roll_bool() -> (roll: bool) {
    rand::random::<bool>()
}

/// `Rng::gen_range(0..bound)` on the thread-local generator: a number below
/// `bound`. An empty range is not sampled.
#[verifier::external_body]
pub(crate) fn roll_below(bound: u32) -> (roll: u32)
    requires
        bound > 0,
    ensures
        roll < bound,
{
    rand::Rng::gen_range(&mut rand::thread_rng(), 0..bound)
}

} // verus!
