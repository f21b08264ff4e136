//! The source of randomness: one seeded ChaCha generator with eight
//! rounds, owned by the solver scope.

use rand_chacha::rand_core::SeedableRng;
use rand_chacha::ChaCha8Rng;
use vstd::prelude::*;

verus! {

#[verifier::external_type_specification]
#[verifier::external_body]
pub struct ExChaCha8Rng(ChaCha8Rng);

/// The generator that `ChaCha8Rng::seed_from_u64` makes of a seed.
///
/// Two generators are the same in specifications when they agree in what
/// determines their output: key, stream and position in the stream.
pub uninterp spec fn seeded(seed: u64) -> ChaCha8Rng;

/// Calls `ChaCha8Rng::seed_from_u64`. That function expands the seed into
/// a key by a fixed arithmetic recipe and starts a generator at the
/// beginning of stream zero under that key. It reads nothing but the seed,
/// so equal seeds give equal generators: the result is named [`seeded`].
#[verifier::external_body]
pub(crate) fn seeded_generator(seed: u64) -> (generator: ChaCha8Rng)
    ensures
        generator == seeded(seed),
{
    ChaCha8Rng::seed_from_u64(seed)
}

} // verus!
