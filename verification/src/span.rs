use vstd::prelude::*;

verus! {

/// A region of the source code, given as a byte offset and a length in bytes.
#[derive(Debug, Clone, Copy, PartialEq, Eq, Hash, Structural)]
pub struct Span {
    pub offset: usize,
    pub length: usize,
}

impl Span {
    pub fn new(offset: usize, length: usize) -> (span: Span)
        ensures
            span.offset == offset,
            span.length == length,
    {
        Span { offset, length }
    }

    pub fn offset(&self) -> (offset: usize)
        ensures
            offset == self.offset,
    {
        self.offset
    }

    pub fn len(&self) -> (length: usize)
        ensures
            length == self.length,
    {
        self.length
    }
}

} // verus!
