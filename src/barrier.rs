//! The optimization barrier that keeps measured work from being removed.
use vstd::prelude::*;

verus! {

/// Hands `dummy` back unchanged, in a way the optimizer must assume reads
/// it, so that a value a workload computes but never uses is still
/// computed. Relies on `std::hint::black_box`, an identity function.
#[verifier::external_body]
pub fn black_box<T>(dummy: T) -> (r: T)
    ensures
        r == dummy,
{
    std::hint::black_box(dummy)
}

} // verus!
