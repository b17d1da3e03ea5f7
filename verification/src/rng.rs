//! Trusted wrappers around the random number generator. Each wrapper states
//! only what holds of every outcome.
use vstd::prelude::*;

use rand::Rng;

verus! {

/// Relies on rand::Rng::random_range: a uniform value within the given
/// (non-empty) range. Draws one weight or bias in [-SCALE, SCALE], the
/// fixed-point image of [-1, 1].
#[verifier::external_body]
pub(crate) fn rand_unit() -> (r: i64)
    ensures
        -crate::SCALE <= r <= crate::SCALE,
{
    rand::rng().random_range(-crate::SCALE..=crate::SCALE)
}

/// Relies on rand::Rng::random_range: a uniform value within the given
/// (non-empty) range. Draws one chance in [0, CHANCE_DENOM), the fixed-point
/// image of [0, 1).
#[verifier::external_body]
pub(crate) fn rand_chance() -> (r: u32)
    ensures
        r < crate::CHANCE_DENOM,
{
    rand::rng().random_range(0..crate::CHANCE_DENOM)
}

/// Relies on rand::Rng::random_range: a uniform value within the given
/// range, which must be non-empty. Draws one coordinate in [lo, hi).
#[verifier::external_body]
pub(crate) fn rand_coord(lo: i32, hi: i32) -> (r: i32)
    requires
        lo < hi,
    ensures
        lo <= r < hi,
{
    rand::rng().random_range(lo..hi)
}

/// Relies on rand::seq::index::sample: exactly `amount` distinct indices
/// sampled from 0..length, in random order; it panics when
/// `amount > length`, which the precondition rules out.
#[verifier::external_body]
pub(crate) fn sample_indices(length: usize, amount: usize) -> (r: Vec<usize>)
    requires
        amount <= length,
    ensures
        r.len() == amount,
        forall|i: int| 0 <= i < r.len() ==> r[i] < length,
        forall|i: int, j: int| 0 <= i < j < r.len() ==> r[i] != r[j],
{
    rand::seq::index::sample(&mut rand::rng(), length, amount).into_vec()
}

} // verus!
