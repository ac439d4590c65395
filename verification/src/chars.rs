//! Character classification and case mapping. What a character counts as —
//! whitespace, alphanumeric, uppercase — and what its case-mapped form is are
//! defined by the Unicode tables behind the standard library; each gets a
//! name here, and a trusted wrapper ties the name to the library call.
use vstd::prelude::*;

verus! {

/// Whether `c` is whitespace, as char::is_whitespace decides it.
pub uninterp spec fn char_is_whitespace(c: char) -> bool;

/// Whether `c` is alphanumeric, as char::is_alphanumeric decides it.
pub uninterp spec fn char_is_alphanumeric(c: char) -> bool;

/// Whether `c` is uppercase, as char::is_uppercase decides it.
pub uninterp spec fn char_is_uppercase(c: char) -> bool;

/// The uppercase mapping of `c`, as char::to_uppercase yields it; one
/// character may map to several.
pub uninterp spec fn char_upper(c: char) -> Seq<char>;

/// The lowercase mapping of `c`, as char::to_lowercase yields it.
pub uninterp spec fn char_lower(c: char) -> Seq<char>;

/// The uppercase form of a text, as str::to_uppercase yields it.
pub uninterp spec fn str_upper(s: Seq<char>) -> Seq<char>;

/// The lowercase form of a text, as str::to_lowercase yields it.
pub uninterp spec fn str_lower(s: Seq<char>) -> Seq<char>;

/// Relies on char::is_whitespace: the White_Space property of the character.
#[verifier::external_body]
pub(crate) fn is_whitespace_char(c: char) -> (r: bool)
    ensures
        r == char_is_whitespace(c),
{
    c.is_whitespace()
}

/// Relies on char::is_alphanumeric: the Alphabetic property or a numeric
/// general category.
#[verifier::external_body]
pub(crate) fn is_alphanumeric_char(c: char) -> (r: bool)
    ensures
        r == char_is_alphanumeric(c),
{
    c.is_alphanumeric()
}

/// Relies on char::is_uppercase: the Uppercase property of the character.
#[verifier::external_body]
pub(crate) fn is_uppercase_char(c: char) -> (r: bool)
    ensures
        r == char_is_uppercase(c),
{
    c.is_uppercase()
}

/// Relies on char::to_uppercase: the full Unicode uppercase mapping, a
/// function of the character alone.
#[verifier::external_body]
pub(crate) fn char_to_uppercase(c: char) -> (r: String)
    ensures
        r@ == char_upper(c),
{
    c.to_uppercase().collect()
}

/// Relies on char::to_lowercase: the full Unicode lowercase mapping, a
/// function of the character alone.
#[verifier::external_body]
pub(crate) fn char_to_lowercase(c: char) -> (r: String)
    ensures
        r@ == char_lower(c),
{
    c.to_lowercase().collect()
}

/// Relies on str::to_uppercase: the uppercase form of the text, a function of
/// its characters alone; an empty text stays empty.
#[verifier::external_body]
pub(crate) fn str_to_uppercase(s: &str) -> (r: String)
    ensures
        r@ == str_upper(s@),
        s@.len() == 0 ==> r@.len() == 0,
{
    s.to_uppercase()
}

/// Relies on str::to_lowercase: the lowercase form of the text, a function of
/// its characters alone; an empty text stays empty.
#[verifier::external_body]
pub(crate) fn str_to_lowercase(s: &str) -> (r: String)
    ensures
        r@ == str_lower(s@),
        s@.len() == 0 ==> r@.len() == 0,
{
    s.to_lowercase()
}

/// Relies on char::to_string: the one-character string of `c`.
#[verifier::external_body]
pub(crate) fn char_to_string(c: char) -> (r: String)
    ensures
        r@ == seq![c],
{
    c.to_string()
}

/// Whether two texts hold the same characters, compared one by one.
pub(crate) fn str_eq(a: &str, b: &str) -> (r: bool)
    ensures
        r == (a@ == b@),
{
    let n = a.unicode_len();
    let m = b.unicode_len();
    if n != m {
        return false;
    }
    let mut i: usize = 0;
    while i < n
        invariant
            n == a@.len() == b@.len(),
            i <= n,
            forall|j: int| 0 <= j < i ==> a@[j] == b@[j],
        decreases n - i,
    {
        if a.get_char(i) != b.get_char(i) {
            return false;
        }
        i += 1;
    }
    proof {
        assert(a@ =~= b@);
    }
    true
}

} // verus!
