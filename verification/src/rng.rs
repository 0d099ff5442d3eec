//! Trusted access to the process-wide random generator.
use vstd::prelude::*;
use rand::Rng;

verus! {

/// Relies on rand::Rng::gen_range on rand::thread_rng: returns a uniform
/// value of the half-open range `lo..hi`; the call panics only on an empty
/// range, which the precondition rules out.
#[verifier::external_body]
pub(crate) fn rand_range(lo: i64, hi: i64) -> (r: i64)
    requires
        lo < hi,
    ensures
        lo <= r < hi,
{
    rand::thread_rng().gen_range(lo..hi)
}

/// Relies on rand::Rng::gen_ratio on rand::thread_rng: true with probability
/// `num / den`; the call panics only when `den == 0` or `num > den`, which
/// the precondition rules out. Nothing is promised of the outcome itself.
#[verifier::external_body]
pub(crate) fn rand_ratio(num: u32, den: u32) -> (r: bool)
    requires
        0 < den,
        num <= den,
{
    rand::thread_rng().gen_ratio(num, den)
}

} // verus!
