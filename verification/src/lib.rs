//! The transactional editing core of a modal text editor: edits grouped into
//! atomically undoable transactions, an anchor/head selection, semantic text
//! object resolution, and a registry of named editing operations.
#![verifier::loop_isolation(false)]
use vstd::prelude::*;

pub mod buffer;
pub mod chars;
pub mod context;
pub mod edit;
pub mod finder_basic;
pub mod finder_treesitter;
pub mod grapheme;
pub mod history;
pub mod navigator;
pub mod operations;
pub mod registry;
pub mod rope_store;
pub mod selection;
pub mod text;
pub mod text_objects;
pub mod textobject;
pub mod textobjects_registry;

verus! {

/// A half-open range of character offsets into a buffer.
#[derive(Debug, Clone, Copy, PartialEq, Eq, Structural)]
pub struct TextRange {
    pub start: usize,
    pub end: usize,
}

impl TextRange {
    pub fn new(start: usize, end: usize) -> (r: TextRange)
        ensures
            r.start == start,
            r.end == end,
    {
        TextRange { start, end }
    }

    pub fn is_empty(&self) -> (r: bool)
        ensures
            r == (self.start == self.end),
    {
        self.start == self.end
    }

    pub fn len(&self) -> (r: usize)
        ensures
            self.start <= self.end ==> r == self.end - self.start,
            self.start > self.end ==> r == 0,
    {
        if self.start <= self.end {
            self.end - self.start
        } else {
            0
        }
    }
}

} // verus!
