//! A small deterministic generator for sample jitter.
//!
//! Every row of the image owns one generator, seeded from the frame seed
//! and the row index, so rows can be computed in any order — or in
//! parallel — and still produce the same image. The whole sequence is a
//! function of the seed alone, which is what makes a render reproducible.

use vstd::prelude::*;

use crate::fixed::SCALE;

verus! {

/// One generator step: a linear congruence modulo the word size.
pub open spec fn rng_next(s: u64) -> u64 {
    vstd::wrapping::u64_specs::wrapping_add(
        vstd::wrapping::u64_specs::wrapping_mul(s, 6364136223846793005u64),
        1442695040888963407u64,
    )
}

/// The jitter a state yields: a fixed-point offset in `[0, SCALE)`.
pub open spec fn jitter_of(s: u64) -> i64 {
    ((s >> 33u64) % 65536u64) as i64
}

/// The seed of one row's generator, mixed from the frame seed and the row.
pub open spec fn row_seed(seed: u64, row: u64) -> u64 {
    vstd::wrapping::u64_specs::wrapping_add(
        seed,
        vstd::wrapping::u64_specs::wrapping_mul(row, 0x9E3779B97F4A7C15u64),
    )
}

/// Mixes the frame seed and a row index into that row's generator seed.
pub fn mix_row_seed(seed: u64, row: u64) -> (r: u64)
    ensures
        r == row_seed(seed, row),
{
    seed.wrapping_add(row.wrapping_mul(0x9E3779B97F4A7C15))
}

/// The jitter generator: a single word of state.
#[derive(Clone, Copy, Debug, PartialEq, Eq, Structural)]
pub struct Jitter {
    pub state: u64,
}

impl Jitter {
    pub fn new(seed: u64) -> (j: Jitter)
        ensures
            j.state == seed,
    {
        Jitter { state: seed }
    }

    /// A generator for one row of the image.
    pub fn for_row(seed: u64, row: u64) -> (j: Jitter)
        ensures
            j.state == row_seed(seed, row),
    {
        Jitter { state: seed.wrapping_add(row.wrapping_mul(0x9E3779B97F4A7C15)) }
    }

    /// Advances the generator and yields a jitter in `[0, SCALE)`.
    pub fn next_jitter(&mut self) -> (r: i64)
        ensures
            final(self).state == rng_next(old(self).state),
            r == jitter_of(rng_next(old(self).state)),
            0 <= r < SCALE,
    {
        let s2: u64 = self.state.wrapping_mul(6364136223846793005).wrapping_add(
            1442695040888963407,
        );
        self.state = s2;
        let r: u64 = (s2 >> 33u64) % 65536u64;
        r as i64
    }

    /// A signed jitter in `(-SCALE, SCALE]`: one unit less twice the draw.
    pub fn signed_jitter(&mut self) -> (r: i64)
        ensures
            final(self).state == rng_next(old(self).state),
            r == SCALE - 2 * jitter_of(rng_next(old(self).state)),
            -SCALE < r <= SCALE,
    {
        let j: i64 = self.next_jitter();
        SCALE - 2 * j
    }
}

} // verus!
