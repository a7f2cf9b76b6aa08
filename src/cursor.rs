use vstd::prelude::*;

verus! {

/// A position in the source text: a line and a column, the column counted
/// in characters.
#[derive(Clone, Copy, Debug, PartialEq, Eq, Structural)]
pub struct Location {
    pub line: usize,
    pub column: usize,
}

/// Scan position: the bytes of UTF-8 text consumed so far (`pointer`) and
/// the current location.
///
/// A recognizer returns a `Cursor` that describes how far it advanced (a
/// delta); the lexer merges it into its running cursor.
#[derive(Clone, Copy, Debug, PartialEq, Eq, Structural)]
pub struct Cursor {
    pub pointer: usize,
    pub loc: Location,
}

/// The cursor reached by advancing `base` by `delta`: offsets and lines add
/// up; a delta that crossed a line replaces the column, any other adds to it.
pub open spec fn merged(base: Cursor, delta: Cursor) -> Cursor {
    Cursor {
        pointer: (base.pointer + delta.pointer) as usize,
        loc: Location {
            line: (base.loc.line + delta.loc.line) as usize,
            column: if delta.loc.line > 0 {
                delta.loc.column
            } else {
                (base.loc.column + delta.loc.column) as usize
            },
        },
    }
}

/// The sums taken by `merged` fit in a `usize`.
pub open spec fn can_merge(base: Cursor, delta: Cursor) -> bool {
    &&& base.pointer + delta.pointer <= usize::MAX
    &&& base.loc.line + delta.loc.line <= usize::MAX
    &&& delta.loc.line == 0 ==> base.loc.column + delta.loc.column <= usize::MAX
}

impl Location {
    /// The start of the text.
    pub fn start() -> (r: Location)
        ensures
            r.line == 0,
            r.column == 0,
    {
        Location { line: 0, column: 0 }
    }
}

impl Cursor {
    /// A cursor at the start of the text, with nothing consumed.
    pub fn start() -> (r: Cursor)
        ensures
            r.pointer == 0,
            r.loc.line == 0,
            r.loc.column == 0,
    {
        Cursor { pointer: 0, loc: Location::start() }
    }

    /// Advances this cursor by `other`, a delta returned by a recognizer.
    pub fn merge(&mut self, other: Self)
        requires
            can_merge(*old(self), other),
        ensures
            *final(self) == merged(*old(self), other),
    {
        self.pointer = self.pointer + other.pointer;
        if other.loc.line > 0 {
            self.loc.column = other.loc.column;
        } else {
            self.loc.column = self.loc.column + other.loc.column;
        }
        self.loc.line = self.loc.line + other.loc.line;
    }
}

} // verus!
