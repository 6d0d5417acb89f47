use vstd::prelude::*;
use vstd::wrapping::u64_specs::{wrapping_add, wrapping_mul};

verus! {

/// One step of the linear recurrence that drives generation.
#[verifier::opaque]
pub open spec fn lcg_step(s: u64) -> u64 {
    wrapping_add(wrapping_mul(s, 1103515245), 12345)
}

/// The 15-bit window that a state yields.
pub open spec fn lcg_output(s: u64) -> u64 {
    (s >> 16u64) & 0x7fff
}

/// The value drawn from state `s`: advance once, then read the window.
pub open spec fn draw(s: u64) -> u64 {
    lcg_output(lcg_step(s))
}

pub proof fn lemma_output_bound(s: u64)
    ensures
        lcg_output(s) < 0x8000,
{
    assert((s >> 16u64) & 0x7fff < 0x8000) by (bit_vector);
}

/// A seeded stream of pseudo-random integers.
pub struct MapGenerator {
    pub rng_state: u64,
}

impl MapGenerator {
    pub fn new(seed: u64) -> (r: MapGenerator)
        ensures
            r.rng_state == seed,
    {
        MapGenerator { rng_state: seed }
    }

    /// Advances the state and returns the next value, which lies in `[0, 32768)`.
    pub fn rand(&mut self) -> (r: u64)
        ensures
            final(self).rng_state == lcg_step(old(self).rng_state),
            r == draw(old(self).rng_state),
            r < 0x8000,
    {
        self.rng_state = self.rng_state.wrapping_mul(1103515245).wrapping_add(12345);
        proof {
            reveal(lcg_step);
            lemma_output_bound(self.rng_state);
        }
        (self.rng_state >> 16) & 0x7fff
    }
}

} // verus!
