//! Random draws, taken from rand's seedable standard generator.
use rand::rngs::StdRng;
use rand::{Rng, SeedableRng};
use vstd::prelude::*;

verus! {

#[verifier::external_type_specification]
#[verifier::external_body]
pub struct ExStdRng(rand::rngs::StdRng);

/// Relies on rand's `SeedableRng::seed_from_u64`: a generator whose draws
/// are fixed by `seed`.
#[verifier::external_body]
pub(crate) fn seeded(seed: u64) -> StdRng {
    StdRng::seed_from_u64(seed)
}

/// Relies on rand's `Rng::random_range` on the half-open range `lo..hi`:
/// the value lies in that range; an empty range would panic.
#[verifier::external_body]
pub(crate) fn draw_range(rng: &mut StdRng, lo: u64, hi: u64) -> (r: u64)
    requires
        lo < hi,
    ensures
        lo <= r < hi,
{
    rng.random_range(lo..hi)
}

/// Relies on rand's `Rng::random_ratio`: `true` with chance `num / den`,
/// never for `num == 0` and always for `num == den`; `den == 0` or
/// `num > den` would panic.
#[verifier::external_body]
pub(crate) fn draw_ratio(rng: &mut StdRng, num: u32, den: u32) -> (r: bool)
    requires
        0 < den,
        num <= den,
    ensures
        num == 0 ==> !r,
        num == den ==> r,
{
    rng.random_ratio(num, den)
}

} // verus!
