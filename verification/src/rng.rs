//! The seeded uniform pseudo-random source.
//!
//! The generator algorithm is external; the library only relies on the
//! range its draws fall in.

use vstd::prelude::*;
use tinyrand::{RandRange, Seeded};

verus! {

/// tinyrand's Wyrand generator (the crate's `StdRand`), declared opaque so
/// it can live in a verified struct.
#[verifier::external_type_specification]
#[verifier::external_body]
pub struct ExWyrand(tinyrand::Wyrand);

/// Relies on `tinyrand::Seeded::seed` for `StdRand`: builds the generator
/// state from the seed.  Nothing is claimed of the state.
#[verifier::external_body]
pub(crate) fn rand_from_seed(seed: u64) -> (r: tinyrand::StdRand) {
    tinyrand::StdRand::seed(seed)
}

/// Relies on `tinyrand::RandRange::next_range` for `u16`: a draw in
/// `[0, hi)`.  The call panics on an empty range, so `hi` must be positive;
/// the draw itself depends on the generator state, so only its range is
/// stated.
#[verifier::external_body]
pub(crate) fn rand_next_range(rand: &mut tinyrand::StdRand, hi: u16) -> (r: u16)
    requires
        hi > 0,
    ensures
        r < hi,
{
    rand.next_range(0..hi)
}

} // verus!
