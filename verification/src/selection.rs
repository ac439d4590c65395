//! The anchor/head cursor model. `anchor` is the fixed end, `head` the moving
//! end; the two coincide exactly when the selection is a bare cursor. Content
//! reads go through the normalized `range()`.
use vstd::prelude::*;

verus! {

#[derive(Debug, Clone, Copy, PartialEq, Eq, Structural, Default)]
pub struct Selection {
    pub anchor: usize,
    pub head: usize,
}

impl Selection {
    pub fn new(anchor: usize, head: usize) -> (r: Selection)
        ensures
            r.anchor == anchor,
            r.head == head,
    {
        Selection { anchor, head }
    }

    pub fn is_cursor(&self) -> (r: bool)
        ensures
            r == (self.anchor == self.head),
    {
        self.anchor == self.head
    }

    /// Collapse the selection to a cursor at `position`.
    pub fn cursor_to(&mut self, position: usize)
        ensures
            final(self).anchor == position,
            final(self).head == position,
    {
        self.anchor = position;
        self.head = position;
    }

    /// Set both ends; `head` may lie on either side of `anchor`.
    pub fn set_range(&mut self, anchor: usize, head: usize)
        ensures
            final(self).anchor == anchor,
            final(self).head == head,
    {
        self.anchor = anchor;
        self.head = head;
    }

    /// The normalized `(min, max)` form of the selection.
    pub fn range(&self) -> (r: (usize, usize))
        ensures
            r.0 == self.spec_start(),
            r.1 == self.spec_end(),
    {
        if self.anchor <= self.head {
            (self.anchor, self.head)
        } else {
            (self.head, self.anchor)
        }
    }

    /// The smaller end of the selection.
    pub open spec fn spec_start(&self) -> int {
        if self.anchor <= self.head {
            self.anchor as int
        } else {
            self.head as int
        }
    }

    /// The larger end of the selection.
    pub open spec fn spec_end(&self) -> int {
        if self.anchor <= self.head {
            self.head as int
        } else {
            self.anchor as int
        }
    }
}

} // verus!
