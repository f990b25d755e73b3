use vstd::prelude::*;

verus! {

/// A JavaScript value in its encoded 64-bit machine form.
///
/// The engine keeps every value in a single machine word; this crate never
/// inspects the encoding, it only moves values around.
#[derive(Clone, Copy, Debug, PartialEq, Eq, Structural, Hash)]
pub struct JValue(pub u64);

impl JValue {
    /// The all-zero word, the value a freshly zeroed slot holds.
    pub open spec fn spec_zeroed() -> JValue {
        JValue(0)
    }
}

} // verus!
