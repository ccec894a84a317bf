//! Chance, as the `rand` crate deals it out.

use vstd::prelude::*;

verus! {

/// `rand::random_range` over `low..high`: some number of that range, drawn
/// from the generator of the thread. The outside function panics on an
/// empty range, which the precondition leaves out. Which number comes is
/// open, so nothing more is said of it.
#[verifier::external_body]
pub(crate) fn random_index(low: usize, high: usize) -> (drawn: usize)
    requires
        low < high,
    ensures
        low <= drawn < high,
{
    rand::random_range(low..high)
}

} // verus!
