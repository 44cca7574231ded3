//! Uniform rank sampling for the Monte-Carlo permutation null.
//!
//! Each null draw takes `group_size` rank numerators uniformly, with
//! replacement, from `1..=population`; the draw is produced by a
//! deterministically seeded generator, so a null built from `seed + task
//! index` per draw is reproducible under any parallel schedule. The
//! numerators are exact; the caller divides them by the population size
//! to form normalized-rank keys and scores them.

use vstd::prelude::*;

verus! {

#[verifier::external_type_specification]
#[verifier::external_body]
pub struct ExChaCha8Rng(rand_chacha::ChaCha8Rng);

/// Relies on rand_chacha's `ChaCha8Rng` through `SeedableRng::seed_from_u64`:
/// a generator in the state that seed determines.
#[verifier::external_body]
fn seeded_rng(seed: u64) -> rand_chacha::ChaCha8Rng {
    rand::SeedableRng::seed_from_u64(seed)
}

/// Relies on rand's `RngExt::random_range` over `1..=n`: a value of the
/// range, whatever the generator state; the range is never empty.
#[verifier::external_body]
fn sample_in(rng: &mut rand_chacha::ChaCha8Rng, n: usize) -> (r: usize)
    requires
        1 <= n,
    ensures
        1 <= r <= n,
{
    rand::RngExt::random_range(rng, 1..=n)
}

/// One permutation draw: `group_size` rank numerators taken uniformly,
/// with replacement, from `1..=population`, in generator order from the
/// given seed.
pub fn sample_rank_numerators(seed: u64, group_size: usize, population: usize) -> (r: Vec<usize>)
    requires
        1 <= population,
    ensures
        r@.len() == group_size,
        forall|i: int| 0 <= i < r@.len() ==> 1 <= #[trigger] r@[i] <= population,
{
    let mut rng = seeded_rng(seed);
    let mut r: Vec<usize> = Vec::new();
    let mut i: usize = 0;
    while i < group_size
        invariant
            1 <= population,
            i <= group_size,
            r@.len() == i,
            forall|k: int| 0 <= k < r@.len() ==> 1 <= #[trigger] r@[k] <= population,
        decreases group_size - i,
    {
        let v = sample_in(&mut rng, population);
        r.push(v);
        i = i + 1;
    }
    r
}

} // verus!
