//! Randomness, drawn from the `rand` crate.
//!
//! The engine needs random values in three places: drawing the roster,
//! shuffling the deck, and picking the card a Noxious monster discards.
//! Nothing can be promised of a random value, so the trusted declaration
//! below carries no `ensures`; everything the engine guarantees holds for
//! every value that comes back.

use vstd::prelude::*;

verus! {

/// Relies on rand::random: a value of the standard distribution for `T`.
/// No outcome is promised.
pub assume_specification<T>[ rand::random::<T> ]() -> (r: T)
    where
        rand::distributions::Standard: rand::distributions::Distribution<T>,
;

/// A random index below `n`. Only the bound is promised.
pub fn random_below(n: usize) -> (r: usize)
    requires
        n > 0,
    ensures
        r < n,
{
    let x: usize = rand::random();
    x % n
}

} // verus!
