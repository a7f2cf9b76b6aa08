use vstd::prelude::*;
use crate::cursor::Location;

verus! {

/// Why lexing stopped.
#[derive(Clone, Copy, Debug, PartialEq, Eq, Structural)]
pub enum ErrorKind {
    /// No token starts at the location, and it holds no space to skip.
    InvalidToken,
}

/// A lexing failure and where it happened.
#[derive(Clone, Copy, Debug, PartialEq, Eq, Structural)]
pub struct LexError {
    pub kind: ErrorKind,
    pub location: Location,
}

impl LexError {
    /// An error of kind `kind` at `loc`.
    pub fn new(kind: ErrorKind, loc: Location) -> (r: LexError)
        ensures
            r.kind == kind,
            r.location == loc,
    {
        LexError { kind, location: loc }
    }
}

} // verus!
