//! A styled span of rendered message text: where it starts in the plain
//! text, how long it is, and how it is styled. The widget that draws it is
//! the surrounding program's concern.

use core::ops::Range;
use vstd::prelude::*;

verus! {

/// How a span of text is styled.
#[derive(Clone, Copy, Debug, PartialEq, Eq, Structural)]
pub struct TextStyle {
    pub bold: bool,
    pub italic: bool,
}

/// A styled run of characters within a rendered message.
#[derive(Debug)]
pub struct Span {
    pub offset: usize,
    pub len: usize,
    pub modifier: TextStyle,
}

impl Span {
    /// The half-open index range the span covers, saturating at the top of
    /// the address space.
    pub fn range(&self) -> (r: Range<usize>)
        ensures
            r.start == self.offset,
            r.end == self.offset as nat + self.len as nat || (self.offset as nat + self.len as nat
                > usize::MAX && r.end == usize::MAX),
    {
        self.offset..self.offset.saturating_add(self.len)
    }
}

} // verus!
