use vstd::prelude::*;

use rand::rngs::StdRng;

verus! {

#[verifier::external_type_specification]
#[verifier::external_body]
pub struct ExStdRng(StdRng);

/// The seed used where the operating system gives no entropy.
const FALLBACK_SEED: u64 = 0x5eed_1e55_c0ff_ee00;

/// Relies on rand's `SeedableRng::from_rng` over `OsRng`: a generator seeded by the
/// operating system, or `None` where the operating system gives no entropy. Nothing
/// is claimed of its state.
#[verifier::external_body]
fn os_generator() -> Option<StdRng> {
    <StdRng as rand::SeedableRng>::from_rng(rand::rngs::OsRng).ok()
}

/// Relies on rand's `SeedableRng::seed_from_u64`, which does not fail: a generator
/// fixed by `seed`. Nothing is claimed of its state.
#[verifier::external_body]
fn seeded_generator(seed: u64) -> StdRng {
    <StdRng as rand::SeedableRng>::seed_from_u64(seed)
}

/// A generator seeded by the operating system where it can, else by a fixed seed.
pub(crate) fn fresh_generator() -> StdRng {
    match os_generator() {
        Some(rng) => rng,
        None => seeded_generator(FALLBACK_SEED),
    }
}

/// Relies on rand's `Rng::gen_range`, which panics on an empty range and otherwise
/// returns a value inside it: here a value in `0..bound`.
#[verifier::external_body]
pub(crate) fn draw_below(rng: &mut StdRng, bound: u64) -> (r: u64)
    requires
        bound > 0,
    ensures
        r < bound,
{
    rand::Rng::gen_range(rng, 0..bound)
}

/// Relies on rand's `SliceRandom::shuffle`, which reorders the slice by swaps: the
/// items afterwards are the items before, in some order.
#[verifier::external_body]
pub(crate) fn shuffle<T>(rng: &mut StdRng, items: &mut Vec<T>)
    ensures
        final(items)@.len() == old(items)@.len(),
        final(items)@.to_multiset() == old(items)@.to_multiset(),
{
    rand::seq::SliceRandom::shuffle(items.as_mut_slice(), rng)
}

} // verus!
