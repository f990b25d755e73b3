use vstd::prelude::*;

use crate::ids::AsyncId;
use crate::value::JValue;

verus! {

/// The state of a promise: waiting on an asynchronous task, settled with a
/// value or a reason, or pending with nothing that will settle it.
#[derive(Clone, Copy)]
pub enum Promise {
    Pending { id: AsyncId },
    Fulfilled(JValue),
    Rejected(JValue),
    ForeverPending,
}

} // verus!
