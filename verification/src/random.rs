//! Dice rolls, drawn from rltk's random number generator.

use vstd::prelude::*;
use rltk::RandomNumberGenerator;

verus! {

/// rltk's random number generator, carried through the world as a resource.
#[verifier::external_type_specification]
#[verifier::external_body]
pub struct ExRandomNumberGenerator(rltk::RandomNumberGenerator);

/// Calls `RandomNumberGenerator::roll_dice`, which sums `n` draws from `1..=die_type`.
/// Claimed: with no dice the sum is 0; otherwise it lies between `n` and `n * die_type`.
/// Which value comes out is left open: it rests on the generator's state.
/// The call panics when a die has no faces (`gen_range` on an empty range) or when
/// `die_type + 1` or the sum overflows, so those inputs are excluded.
#[verifier::external_body]
pub fn roll_dice(rng: &mut RandomNumberGenerator, n: i32, die_type: i32) -> (r: i32)
    requires
        n <= 0 || (1 <= die_type < i32::MAX && n * die_type <= i32::MAX),
    ensures
        n <= 0 ==> r == 0,
        n > 0 ==> n <= r <= n * die_type,
{
    rng.roll_dice(n, die_type)
}

} // verus!
