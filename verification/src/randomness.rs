//! Random draws used by route selection, lane selection and retransmission jitter.

use vstd::prelude::*;
use rand::Rng;

verus! {

/// Draws an index below `bound` from the thread-local generator.
///
/// Trusted: calls `rand::Rng::gen_range` on `0..bound`, which panics on an
/// empty range and otherwise returns a value inside the range.
#[verifier::external_body]
pub(crate) fn random_below(bound: usize) -> (index: usize)
    requires
        bound > 0,
    ensures
        index < bound,
{
    rand::thread_rng().gen_range(0..bound)
}

/// Draws a signed value between `-spread` and `spread`, both included.
///
/// Trusted: calls `rand::Rng::gen_range` on the inclusive range, which is
/// never empty for a non-negative `spread`, and returns a value inside it.
#[verifier::external_body]
pub(crate) fn random_within(spread: i64) -> (offset: i64)
    requires
        0 <= spread,
    ensures
        -spread <= offset <= spread,
{
    rand::thread_rng().gen_range(-spread..=spread)
}

/// Draws a number below `bound` from the thread-local generator.
///
/// Trusted: calls `rand::Rng::gen_range` on `0..bound`, which panics on an
/// empty range and otherwise returns a value inside the range.
#[verifier::external_body]
pub(crate) fn random_number_below(bound: u64) -> (number: u64)
    requires
        bound > 0,
    ensures
        number < bound,
{
    rand::thread_rng().gen_range(0..bound)
}

} // verus!
