//! Random draws, made through the `rand` crate's thread-local generator.

use rand::Rng;
use vstd::prelude::*;

verus! {

/// Relies on `rand::random::<u32>`: a fresh value from the thread-local
/// generator. Nothing is promised of the value.
#[verifier::external_body]
pub(crate) fn draw_seed() -> (r: u32) {
    rand::random::<u32>()
}

/// Relies on `rand::Rng::gen_ratio`: true with probability
/// `numerator / denominator`; its documentation guarantees `false` when the
/// numerator is zero and `true` when it equals the denominator, and it panics
/// when the denominator is zero or below the numerator.
#[verifier::external_body]
pub(crate) fn draw_ratio(numerator: u32, denominator: u32) -> (r: bool)
    requires
        0 < denominator,
        numerator <= denominator,
    ensures
        numerator == 0 ==> !r,
        numerator == denominator ==> r,
{
    rand::thread_rng().gen_ratio(numerator, denominator)
}

/// Relies on `rand::Rng::gen_range` over `low..high`: a value of the half-open
/// range; it panics when the range is empty.
#[verifier::external_body]
pub(crate) fn draw_in_range(low: i32, high: i32) -> (r: i32)
    requires
        low < high,
    ensures
        low <= r < high,
{
    rand::thread_rng().gen_range(low..high)
}

} // verus!
