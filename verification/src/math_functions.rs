//! Math-based functions.

use vstd::prelude::*;

verus! {

/// Ten to the power `place`.
pub open spec fn pow10(place: nat) -> nat
    decreases place,
{
    if place == 0 {
        1
    } else {
        10 * pow10((place - 1) as nat)
    }
}

/// `rand::Rng::gen_range` on the thread's generator, with the inclusive
/// range from `min` to `max`: it returns a number of that range, and
/// panics where the range is empty.
#[verifier::external_body]
fn gen_range_inclusive(min: i64, max: i64) -> (drawn: i64)
    requires
        min <= max,
    ensures
        min <= drawn <= max,
{
    rand::Rng::gen_range(&mut rand::thread_rng(), min..=max)
}

/// `num_traits::pow`: it multiplies by squaring and returns `base` to the
/// power `exp`.  The contract speaks of base ten only: up to its ninth
/// power no product leaves the range of `i32`.
#[verifier::external_body]
fn pow_i32(base: i32, exp: usize) -> (power: i32)
    requires
        base == 10,
        exp <= 9,
    ensures
        power == pow10(exp as nat),
{
    num_traits::pow(base, exp)
}

/// Generate and return a random number between the given min and max,
/// both included.
pub fn math_gen_random_num(min: i64, max: i64) -> (drawn: i64)
    requires
        min <= max,
    ensures
        min <= drawn <= max,
{
    gen_range_inclusive(min, max)
}

/// The factor by which a decimal is scaled to round it to `place` decimal
/// places: ten to the power `place`, as far as it fits, which is up to
/// nine places.
pub fn math_round_factor(place: usize) -> (factor: Option<i32>)
    ensures
        factor is Some <==> place <= 9,
        factor matches Some(ten_to_place) ==> ten_to_place == pow10(place as nat),
{
    if place <= 9 {
        Some(pow_i32(10, place))
    } else {
        None
    }
}

} // verus!
