use vstd::prelude::*;

use crate::value::JValue;

verus! {

/// Why a generator suspended: it awaits a value or yields one.
#[derive(Clone, Copy)]
pub enum GeneratorResult {
    Await(JValue),
    Yield(JValue),
}

} // verus!
