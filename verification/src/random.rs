//! Random cells, drawn with the `rand` crate.
//!
//! Nothing in this file is proved: each function states what the call into
//! `rand` in its body gives back.
use rand::distributions::Standard;
use rand::rngs::StdRng;
use rand::Rng;
use rand::SeedableRng;
use vstd::prelude::*;

verus! {

/// The first `count` cells that rand's standard generator yields after it has
/// been seeded with `seed`, each cell drawn from the `Standard` distribution
/// of `bool`. The generator is a fixed algorithm on the seed alone, so one
/// seed gives one stream; the stream is that of the version of `rand` that
/// the crate is built with.
pub uninterp spec fn seeded_stream(seed: u64, count: nat) -> Seq<bool>;

/// `rand::random::<bool>()`: one cell from the thread-local generator, filled
/// or empty with equal chance. Nothing is known of the outcome.
#[verifier::external_body]
pub(crate) fn random_cell() -> bool {
    rand::random::<bool>()
}

/// `StdRng::seed_from_u64(seed)` sampled `count` times through
/// `Rng::sample_iter`: the first `count` cells of the stream of `seed`. The
/// iterator never ends, so exactly `count` cells come back.
#[verifier::external_body]
pub(crate) fn seeded_cells(seed: u64, count: usize) -> (cells: Vec<bool>)
    ensures
        cells@ == seeded_stream(seed, count as nat),
        cells@.len() == count,
{
    StdRng::seed_from_u64(seed).sample_iter(Standard).take(count).collect()
}

} // verus!
