use vstd::prelude::*;

verus! {

/// Relies on rand::random: a value drawn uniformly from the thread-local
/// generator. Nothing is known of the value drawn, and two draws may differ.
pub assume_specification<T>[ rand::random::<T> ]() -> (r: T)
    where
        rand::distributions::Standard: rand::distributions::Distribution<T>,
;

} // verus!
