use std::ops::Range;

use vstd::prelude::*;

verus! {

/// The errors of bytecode generation.
#[derive(Debug)]
pub enum Error {
    /// A `break` or `continue` names a label that no enclosing loop has.
    LabelUndefined(String),
    /// A `break` or `continue` stands outside any loop.
    IllegalBreak,
    /// The parser marked the expression at this source range as invalid.
    InvalidExpression { pos: Range<u32> },
}

/// The model of an [`Error`].
pub enum ErrorView {
    LabelUndefined(Seq<char>),
    IllegalBreak,
    InvalidExpression(u32, u32),
}

impl View for Error {
    type V = ErrorView;

    open spec fn view(&self) -> ErrorView {
        match self {
            Error::LabelUndefined(s) => ErrorView::LabelUndefined(s@),
            Error::IllegalBreak => ErrorView::IllegalBreak,
            Error::InvalidExpression { pos } => ErrorView::InvalidExpression(pos.start, pos.end),
        }
    }
}

} // verus!
