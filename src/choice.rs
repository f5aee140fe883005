//! Uniform choice among nondeterministic candidates.
use rand::Rng;
use vstd::prelude::*;

verus! {

/// Relies on rand's `thread_rng().gen_range(0..n)`: a uniformly drawn value
/// below `n`. It panics on an empty range, hence `n > 0`.
#[verifier::external_body]
pub(crate) fn random_index(n: usize) -> (r: usize)
    requires
        n > 0,
    ensures
        r < n,
{
    rand::thread_rng().gen_range(0..n)
}

} // verus!
