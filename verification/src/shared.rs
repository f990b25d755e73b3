use std::sync::Arc;

use vstd::prelude::*;

verus! {

/// Another handle on the value `a` points to, from `Arc::clone`, which the
/// standard library documents as a new pointer to the same allocation: the
/// contract claims that the handle shows the same value.
#[verifier::external_body]
pub(crate) fn share<T>(a: &Arc<T>) -> (r: Arc<T>)
    ensures
        r == *a,
{
    a.clone()
}

} // verus!
