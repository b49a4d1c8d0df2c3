//! A value barrier for the optimizer.

use vstd::prelude::*;

verus! {

/// `std::hint::black_box`, documented as an identity function that merely asks the compiler to be
/// pessimistic about what happens to its argument. Taken on trust: it hands back the value it was
/// given.
pub assume_specification<T>[ std::hint::black_box::<T> ](dummy: T) -> (result: T)
    ensures
        result == dummy,
;

/// A function that is opaque to the optimizer, used to prevent the compiler from optimizing away
/// computations in a benchmark.
pub fn black_box<T>(dummy: T) -> (result: T)
    ensures
        result == dummy,
{
    std::hint::black_box(dummy)
}

} // verus!
