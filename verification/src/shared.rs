//! Values that several owners share.

use vstd::prelude::*;
use std::rc::Rc;

verus! {

/// `Rc::clone`: another pointer to the same value. The value itself is not
/// copied, so both pointers lead to equal values.
#[verifier::external_body]
pub(crate) fn share<T>(rc: &Rc<T>) -> (shared: Rc<T>)
    ensures
        shared == *rc,
{
    Rc::clone(rc)
}

} // verus!
