//! The read-only content view that text-object algorithms consume: length,
//! per-offset lookup, line conversions, and slicing. A host can run the
//! resolver over any store that honours these contracts.
use vstd::prelude::*;

use crate::text::{line_index_at, line_start, num_lines};

verus! {

pub trait TextNavigator {
    /// The characters the navigator exposes.
    spec fn text(&self) -> Seq<char>;

    fn len_chars(&self) -> (r: usize)
        ensures
            r == self.text().len(),
    ;

    fn len_lines(&self) -> (r: usize)
        ensures
            r == num_lines(self.text()),
    ;

    fn char_at(&self, pos: usize) -> (r: Option<char>)
        ensures
            pos < self.text().len() ==> r == Some(self.text()[pos as int]),
            pos >= self.text().len() ==> r is None,
    ;

    fn char_to_line(&self, pos: usize) -> (r: usize)
        requires
            pos <= self.text().len(),
        ensures
            r == line_index_at(self.text(), pos as int),
    ;

    fn line_to_char(&self, line: usize) -> (r: usize)
        requires
            line < num_lines(self.text()),
        ensures
            r == line_start(self.text(), line as int),
    ;

    fn slice_to_string(&self, start: usize, end: usize) -> (r: String)
        ensures
            start <= end <= self.text().len() ==> r@ == self.text().subrange(
                start as int,
                end as int,
            ),
            !(start <= end <= self.text().len()) ==> r@ == Seq::<char>::empty(),
    ;
}

} // verus!
