//! The one source of chance that the library draws from.

use vstd::prelude::*;

verus! {

/// `rand::random` hands back a value drawn by the thread-local generator.
/// Nothing is claimed of the value: two calls may differ, and every value of
/// the type has to be reckoned with. The call panics only if the operating
/// system fails to seed the generator.
pub assume_specification<T>[ rand::random::<T> ]() -> (r: T)
    where
        rand::distr::StandardUniform: rand::distr::Distribution<T>,
;

} // verus!
