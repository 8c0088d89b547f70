//! The source of randomness: a ChaCha generator with eight rounds, from the
//! `rand_chacha` crate, drawn from through the `rand` crate.
use vstd::prelude::*;

use crate::common::Direction;
use rand_chacha::ChaCha8Rng;

verus! {

#[verifier::external_type_specification]
#[verifier::external_body]
pub struct ExChaCha8Rng(ChaCha8Rng);

/// Relies on `Rng::random_range`: a value of the half-open range `0..n`,
/// which panics only when the range is empty.
#[verifier::external_body]
pub(crate) fn random_below(rng: &mut ChaCha8Rng, n: i16) -> (r: i16)
    requires
        n > 0,
    ensures
        0 <= r < n,
{
    rand::Rng::random_range(rng, 0..n)
}

/// Relies on `SeedableRng::seed_from_u64`: a generator seeded from a single
/// integer.
#[verifier::external_body]
pub(crate) fn seeded(seed: u64) -> (r: ChaCha8Rng) {
    <ChaCha8Rng as rand::SeedableRng>::seed_from_u64(seed)
}

/// Relies on `IndexedRandom::choose` for slices: one of the items, drawn at
/// random, and `None` only for an empty slice.
#[verifier::external_body]
pub(crate) fn choose_direction(options: &[Direction], rng: &mut ChaCha8Rng) -> (r: Option<
    Direction,
>)
    ensures
        r is None <==> options@.len() == 0,
        r matches Some(d) ==> options@.contains(d),
{
    rand::seq::IndexedRandom::choose(options, rng).copied()
}

} // verus!
