//! Interface to the outside random-number generator.

use vstd::prelude::*;

verus! {

/// Relies on rand::random: draws a value of the requested type from the
/// thread-local generator. Nothing can be promised of a random value.
pub assume_specification<T>[ rand::random::<T> ]() -> (r: T)
    where
        rand::distributions::Standard: rand::distributions::Distribution<T>,
;

/// Draw a duration below `max` for a random-wait timer: uniform enough for
/// scheduling jitter. Returns zero when `max` is zero.
pub(crate) fn roll_duration(max: u64) -> (r: u64)
    ensures
        max > 0 ==> r < max,
        max == 0 ==> r == 0,
{
    if max == 0 {
        0
    } else {
        let raw: u64 = rand::random::<u64>();
        raw % max
    }
}

} // verus!
