use vstd::prelude::*;

verus! {

/// A span of source text, given as byte offsets.
#[derive(Clone, Copy, Debug, PartialEq, Eq, Structural, Hash)]
pub struct Location {
    pub start: usize,
    pub end: usize,
}

impl Location {
    /// The span from `start` to `end`.
    pub fn new(start: usize, end: usize) -> (r: Location)
        ensures
            r.start == start,
            r.end == end,
    {
        Location { start, end }
    }
}

} // verus!
