//! The one source of randomness: every probability roll, random duration and
//! random spawn point in the simulation is derived from a draw below a bound.

use vstd::prelude::*;

verus! {

/// Relies on rand::Rng::random_range over `0..n`: it returns a value of that
/// range (and panics only when the range is empty, which `n >= 1` rules out).
/// Nothing further is assumed of the draw; callers state what holds of every
/// outcome.
#[verifier::external_body]
pub(crate) fn rand_below(n: u64) -> (r: u64)
    requires
        1 <= n,
    ensures
        r < n,
{
    rand::Rng::random_range(&mut rand::rng(), 0..n)
}

} // verus!
