//! Character storage, held in a `ropey::Rope`. The rope is opaque to
//! verification: its contents are named by `rope_chars`, and each operation
//! the library needs is a thin trusted wrapper whose contract states, over
//! that name, what ropey's source shows. Ropey is built without its optional
//! line-break features, so a line break is exactly `'\n'`.
use vstd::prelude::*;

use crate::text::{line_index_at, line_start, num_lines};

verus! {

#[verifier::external_type_specification]
#[verifier::external_body]
pub struct ExRope(ropey::Rope);

/// The characters a rope holds, in order.
pub uninterp spec fn rope_chars(r: ropey::Rope) -> Seq<char>;

/// Relies on ropey::Rope::new: an empty rope.
#[verifier::external_body]
pub(crate) fn rope_new() -> (r: ropey::Rope)
    ensures
        rope_chars(r) == Seq::<char>::empty(),
{
    ropey::Rope::new()
}

/// Relies on ropey::Rope::from_str: a rope holding exactly the given text.
#[verifier::external_body]
pub(crate) fn rope_from_str(text: &str) -> (r: ropey::Rope)
    ensures
        rope_chars(r) == text@,
{
    ropey::Rope::from_str(text)
}

/// Relies on ropey::Rope::len_chars: the total number of characters.
#[verifier::external_body]
pub(crate) fn rope_len_chars(r: &ropey::Rope) -> (n: usize)
    ensures
        n == rope_chars(*r).len(),
{
    r.len_chars()
}

/// Relies on ropey::Rope::len_lines: one more than the number of line breaks.
#[verifier::external_body]
pub(crate) fn rope_len_lines(r: &ropey::Rope) -> (n: usize)
    ensures
        n == num_lines(rope_chars(*r)),
{
    r.len_lines()
}

/// Relies on ropey::Rope::char: the character at a char index; ropey panics
/// out of bounds, which the precondition rules out.
#[verifier::external_body]
pub(crate) fn rope_char(r: &ropey::Rope, char_idx: usize) -> (c: char)
    requires
        char_idx < rope_chars(*r).len(),
    ensures
        c == rope_chars(*r)[char_idx as int],
{
    r.char(char_idx)
}

/// Relies on ropey::Rope::insert: splices the text in at the char index.
#[verifier::external_body]
pub(crate) fn rope_insert(r: &mut ropey::Rope, char_idx: usize, text: &str)
    requires
        char_idx <= rope_chars(*old(r)).len(),
    ensures
        rope_chars(*final(r)) == rope_chars(*old(r)).take(char_idx as int) + text@ + rope_chars(
            *old(r),
        ).skip(char_idx as int),
{
    r.insert(char_idx, text);
}

/// Relies on ropey::Rope::remove: removes the char range `[start, end)`.
#[verifier::external_body]
pub(crate) fn rope_remove(r: &mut ropey::Rope, start: usize, end: usize)
    requires
        start <= end <= rope_chars(*old(r)).len(),
    ensures
        rope_chars(*final(r)) == rope_chars(*old(r)).take(start as int) + rope_chars(
            *old(r),
        ).skip(end as int),
{
    r.remove(start..end);
}

/// Relies on ropey::Rope::slice: the characters in `[start, end)`, copied out
/// as a string.
#[verifier::external_body]
pub(crate) fn rope_slice_string(r: &ropey::Rope, start: usize, end: usize) -> (s: String)
    requires
        start <= end <= rope_chars(*r).len(),
    ensures
        s@ == rope_chars(*r).subrange(start as int, end as int),
{
    r.slice(start..end).to_string()
}

/// Relies on ropey::Rope::char_to_line: the index of the line the char at
/// `char_idx` belongs to, which is the number of line breaks before it.
#[verifier::external_body]
pub(crate) fn rope_char_to_line(r: &ropey::Rope, char_idx: usize) -> (l: usize)
    requires
        char_idx <= rope_chars(*r).len(),
    ensures
        l == line_index_at(rope_chars(*r), char_idx as int),
{
    r.char_to_line(char_idx)
}

/// Relies on ropey::Rope::line_to_char: the char index of the start of the
/// given line.
#[verifier::external_body]
pub(crate) fn rope_line_to_char(r: &ropey::Rope, line_idx: usize) -> (p: usize)
    requires
        line_idx < num_lines(rope_chars(*r)),
    ensures
        p == line_start(rope_chars(*r), line_idx as int),
{
    r.line_to_char(line_idx)
}

} // verus!
