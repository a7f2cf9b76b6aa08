use vstd::prelude::*;
use crate::cursor::Location;

verus! {

/// What went wrong in the source text.
#[derive(Clone, Copy, Debug, PartialEq, Eq, Structural)]
pub enum ErrorKind {
    InvalidToken,
}

/// A located error in the source text.
#[derive(Clone, Copy, Debug, PartialEq, Eq, Structural)]
pub struct Error {
    pub repr: ErrorKind,
    pub location: Location,
}

impl Error {
    /// An error of kind `kind` at `loc`.
    pub fn new(kind: ErrorKind, loc: Location) -> (r: Error)
        ensures
            r.repr == kind,
            r.location == loc,
    {
        Error { repr: kind, location: loc }
    }
}

} // verus!
