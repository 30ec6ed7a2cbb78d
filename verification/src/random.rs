//! The random source: the dice roller of the `rltk` crate.
//!
//! The generator is opaque to the verifier. What the items below state of a
//! draw holds of every outcome: the bounds within which the value lies, and
//! nothing of which value it is.

use vstd::prelude::*;
use rltk::RandomNumberGenerator;

verus! {

/// `rltk::RandomNumberGenerator`, carried through as an opaque value: nothing
/// is known of its state.
#[verifier::external_type_specification]
#[verifier::external_body]
pub struct ExRandomNumberGenerator(rltk::RandomNumberGenerator);

/// `RandomNumberGenerator::new` seeds a generator from the system's entropy,
/// or from the clock where there is none. Nothing is claimed of it.
pub assume_specification[ rltk::RandomNumberGenerator::new ]() -> (rng:
    rltk::RandomNumberGenerator)
;

/// Calls `RandomNumberGenerator::roll_dice`, which adds up `n` draws from
/// `1..=die_type`. The total is claimed to lie between `n` and
/// `n * die_type`. The call panics on a die without faces and where
/// `die_type + 1` or the total overflows, so those inputs are left out.
#[verifier::external_body]
pub(crate) fn roll_dice(rng: &mut RandomNumberGenerator, n: i32, die_type: i32) -> (total: i32)
    requires
        0 <= n,
        1 <= die_type < i32::MAX,
        n * die_type <= i32::MAX,
    ensures
        n <= total <= n * die_type,
{
    rng.roll_dice(n, die_type)
}

/// Calls `RandomNumberGenerator::range`, which draws from `low..high`. The
/// value is claimed to be at least `low` and less than `high`. The call
/// panics on an empty range, so `low < high` is required.
#[verifier::external_body]
pub(crate) fn range(rng: &mut RandomNumberGenerator, low: i32, high: i32) -> (value: i32)
    requires
        low < high,
    ensures
        low <= value < high,
{
    rng.range(low, high)
}

} // verus!
