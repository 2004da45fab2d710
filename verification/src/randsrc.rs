//! The host's random source, reached through trusted wrappers around the
//! global pseudo-random generator that macroquad re-exports.

use vstd::prelude::*;

verus! {

/// Relies on macroquad::rand::srand: it reseeds the global generator and
/// returns nothing, so nothing is claimed of it.
#[verifier::external_body]
pub(crate) fn seed_random(seed: u64) {
    macroquad::rand::srand(seed);
}

/// Relies on macroquad::rand::gen_range::<i64>: the draw is computed as
/// `low + (high - low) * k / 2^32` with `k` a 32-bit draw, evaluated in `f64`
/// and truncated toward zero. Under the requires every intermediate is exact
/// in `f64`: `(high - low) * k` needs at most 52 bits, the division is by a
/// power of two, and the sum's numerator stays within 53 bits. The exact
/// value is at least `low` and strictly below `high`, and truncation toward
/// zero keeps it so. Nothing else is promised of the value.
#[verifier::external_body]
pub(crate) fn random_range(low: i64, high: i64) -> (r: i64)
    requires
        0 <= low < high,
        high <= 0x10_0000,
    ensures
        low <= r < high,
{
    macroquad::rand::gen_range(low, high)
}

} // verus!
