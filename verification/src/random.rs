//! Random draws.
//!
//! The numbers come from the generator of the `ran` crate, which keeps its
//! state per thread: a draw depends on the seed and on every draw made on the
//! thread since. Nothing here says which number a draw gives, only the range
//! in which it lies.
use vstd::prelude::*;

verus! {

/// Calls `ran::set_seeds`, which sets the state of this thread's generator
/// from `seed` and leaves it as it is where `seed` is zero. Nothing is
/// claimed of it.
#[verifier::external_body]
fn set_seeds(seed: u64) {
    ran::set_seeds(seed)
}

/// Calls `ran::generators::ran_urange`, which reduces a random number modulo
/// the size of the range and adds `min`. The claim is that the result lies
/// in the range from `min` to `max`, both included. The size of the range is
/// computed as `1 + max - min`, so `max` has to leave room for the one.
#[verifier::external_body]
fn ran_urange(min: u64, max: u64) -> (draw: u64)
    requires
        min <= max < u64::MAX,
    ensures
        min <= draw <= max,
{
    ran::generators::ran_urange(min, max)
}

/// Starts the random sequence that belongs to `seed`. A seed of zero leaves
/// the sequence where it is.
pub fn seed_generator(seed: u64) {
    set_seeds(seed)
}

/// A random whole number that is at least `min` and below `max`; `min` itself
/// where nothing lies between.
pub fn random_in_range(min: u64, max: u64) -> (draw: u64)
    ensures
        min <= draw,
        min < max ==> draw < max,
        min >= max ==> draw == min,
{
    if min < max {
        ran_urange(min, max - 1)
    } else {
        min
    }
}

/// True with a likelihood of `percent` in a hundred: never for zero, always
/// from a hundred on.
pub fn random_bool(percent: u64) -> (outcome: bool)
    ensures
        percent == 0 ==> !outcome,
        percent >= 100 ==> outcome,
{
    random_in_range(0, 100) < percent
}

/// True or false with equal likelihood.
pub fn random_bool_default() -> bool {
    random_bool(50)
}

} // verus!
