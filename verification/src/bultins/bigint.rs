use vstd::prelude::*;

verus! {

/// The sign of a big integer.
#[derive(Debug, Clone, Copy, PartialEq, Eq, Structural)]
pub enum Sign {
    Plus,
    Minus,
}

} // verus!
