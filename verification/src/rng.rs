//! Trusted wrappers around rltk's random number generator, the one random
//! source the dungeon generator draws from.

use vstd::prelude::*;

use rltk::RandomNumberGenerator;

verus! {

/// Declares rltk's RandomNumberGenerator so it can stand in signatures; its
/// state stays opaque to the verifier.
#[verifier::external_type_specification]
#[verifier::external_body]
pub struct ExRandomNumberGenerator(RandomNumberGenerator);

/// Relies on rltk's RandomNumberGenerator::range: a draw inclusive of `min`
/// and exclusive of `max`. The call panics on an empty range, so one is
/// required off.
#[verifier::external_body]
pub(crate) fn rng_range(rng: &mut RandomNumberGenerator, min: i32, max: i32) -> (r: i32)
    requires
        min < max,
    ensures
        min <= r < max,
{
    rng.range(min, max)
}

/// Relies on rltk's RandomNumberGenerator::roll_dice: the sum of `n` dice
/// each drawn from [1, die_type]. Each die is drawn from `range(1, die_type
/// + 1)`, so `die_type` must leave room for that increment and the range
/// must be non-empty, and the sum must fit in the result type.
#[verifier::external_body]
pub(crate) fn rng_roll_dice(rng: &mut RandomNumberGenerator, n: i32, die_type: i32) -> (r: i32)
    requires
        1 <= n,
        1 <= die_type < i32::MAX,
        n * die_type <= i32::MAX,
    ensures
        n <= r <= n * die_type,
{
    rng.roll_dice(n, die_type)
}

} // verus!
