//! Source locations, as half-open ranges of character offsets.

use vstd::prelude::*;

verus! {

/// A half-open range `[start, end)` of character offsets into the source
/// text that a token or an error was read from. Spans are plain values:
/// cheap to copy and never changed after they are made.
#[derive(Clone, Copy, Debug, PartialEq, Eq, Structural)]
pub struct Span {
    pub start: usize,
    pub end: usize,
}

impl Span {
    pub fn new(range: core::ops::Range<usize>) -> (s: Self)
        ensures
            s.start == range.start,
            s.end == range.end,
    {
        Self { start: range.start, end: range.end }
    }

    pub fn start(&self) -> (r: usize)
        ensures
            r == self.start,
    {
        self.start
    }

    pub fn end(&self) -> (r: usize)
        ensures
            r == self.end,
    {
        self.end
    }

    pub fn into_range(self) -> (r: core::ops::Range<usize>)
        ensures
            r.start == self.start,
            r.end == self.end,
    {
        core::ops::Range { start: self.start, end: self.end }
    }
}

} // verus!
