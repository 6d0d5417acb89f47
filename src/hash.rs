use vstd::prelude::*;
use vstd::wrapping::u32_specs::{wrapping_add, wrapping_mul};

verus! {

/// The positional hash as a function of its inputs: three multiplicative mixes
/// of the coordinates and the seed, summed with wrap-around, then two
/// xor-shift folds around one more multiplication.
pub open spec fn position_hash(x: i32, y: i32, seed: u32) -> u32 {
    let h0 = wrapping_mul(x as u32, 374761393);
    let h1 = wrapping_add(h0, wrapping_mul(y as u32, 668265263));
    let h2 = wrapping_add(h1, wrapping_mul(seed, 1013904223));
    let h3 = h2 ^ (h2 >> 13u32);
    let h4 = wrapping_mul(h3, 1274126177);
    h4 ^ (h4 >> 16u32)
}

/// Deterministic hash of a grid position and a seed, used for visual variation.
pub fn hash_position(x: i32, y: i32, seed: u32) -> (r: u32)
    ensures
        r == position_hash(x, y, seed),
{
    let mut h = (x as u32).wrapping_mul(374761393);
    h = h.wrapping_add((y as u32).wrapping_mul(668265263));
    h = h.wrapping_add(seed.wrapping_mul(1013904223));
    h = h ^ (h >> 13);
    h = h.wrapping_mul(1274126177);
    h = h ^ (h >> 16);
    h
}

} // verus!
