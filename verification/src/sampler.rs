//! The per-task random stream.
//!
//! Each render task owns one `Sampler`, seeded independently, as the
//! concurrency model requires. The generator itself comes from the `rand`
//! crate and is trusted; everything derived from its raw words (unit
//! interval samples, symmetric samples) is verified.

use vstd::prelude::*;

use rand::rngs::StdRng;
use rand::{Rng, SeedableRng};

use crate::fixed::SCALE;

verus! {

#[verifier::external_type_specification]
#[verifier::external_body]
pub struct ExStdRng(StdRng);

/// A self-contained pseudo-random stream for one render task.
pub struct Sampler {
    rng: StdRng,
}

impl Sampler {
    /// Relies on rand's `StdRng::seed_from_u64` (`SeedableRng`): builds a
    /// generator whose stream is a function of the seed alone.
    #[verifier::external_body]
    pub fn from_seed(seed: u64) -> (r: Sampler) {
        Sampler { rng: StdRng::seed_from_u64(seed) }
    }

    /// Relies on rand_core's `Rng::next_u32` for `StdRng`: returns the next
    /// word of the stream. Nothing is assumed of its value.
    #[verifier::external_body]
    fn next_word(&mut self) -> (r: u32) {
        self.rng.next_u32()
    }

    /// A fixed-point sample in [0, 1).
    pub fn next_unit(&mut self) -> (r: i64)
        ensures
            0 <= r < SCALE,
    {
        let w = self.next_word();
        (w % 65536) as i64
    }

    /// A fixed-point sample in [-1, 1).
    pub fn next_symmetric(&mut self) -> (r: i64)
        ensures
            -SCALE <= r < SCALE,
    {
        let w = self.next_word();
        (w % 131072) as i64 - 65536
    }
}

} // verus!
