//! Integer parts of the visualization's animation state.

use vstd::prelude::*;

verus! {

/// Multiplier of the animation's linear congruential generator.
pub const RNG_MULTIPLIER: u64 = 6364136223846793005;

/// Increment of the animation's linear congruential generator.
pub const RNG_INCREMENT: u64 = 1442695040888963407;

/// Next state of the animation's pseudo-random generator: state times the
/// multiplier plus the increment, modulo 2^64.
pub fn next_random_state(state: u64) -> (r: u64)
    ensures
        r as int == (state as int * RNG_MULTIPLIER as int + RNG_INCREMENT as int) % 0x1_0000_0000_0000_0000,
{
    let r = state.wrapping_mul(RNG_MULTIPLIER).wrapping_add(RNG_INCREMENT);
    r
}

/// The 31 high bits of a generator state, the part turned into a random
/// fraction (divided by 2^31 - 1).
pub fn random_bits(state: u64) -> (r: u64)
    ensures
        r as int == state as int / 0x2_0000_0000,
        r < 0x8000_0000,
{
    assert(state >> 33 == state / 0x2_0000_0000) by (bit_vector);
    assert(state / 0x2_0000_0000 < 0x8000_0000) by (bit_vector);
    state >> 33
}

} // verus!
