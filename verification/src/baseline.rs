use vstd::prelude::*;

verus! {

/// How compiled code left a function: with a return value, with an error,
/// awaiting a future, yielding a value, or done.
#[derive(Debug, Clone, Copy, PartialEq, Eq, Structural, PartialOrd, Ord, Hash)]
pub enum ExitCode {
    Return,
    Error,
    Await,
    Yield,
    Done,
}

impl ExitCode {
    pub fn is_return(self) -> (r: bool)
        ensures
            r == (self == ExitCode::Return),
    {
        self == ExitCode::Return
    }

    pub fn is_error(self) -> (r: bool)
        ensures
            r == (self == ExitCode::Error),
    {
        self == ExitCode::Error
    }

    /// Tests for the error code, as `is_error` does; a yield is not
    /// recognised.
    pub fn is_yield(self) -> (r: bool)
        ensures
            r == (self == ExitCode::Error),
    {
        self == ExitCode::Error
    }

    pub fn is_done(self) -> (r: bool)
        ensures
            r == (self == ExitCode::Done),
    {
        self == ExitCode::Done
    }
}

} // verus!
