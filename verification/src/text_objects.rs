//! Boundary-scanning algorithms over a navigator: word and WORD runs,
//! matching brackets, and paragraph extents. Each scan is specified by a
//! recursive function over the text and proved against it.
use vstd::prelude::*;

use crate::chars::{
    char_is_alphanumeric, char_is_whitespace, is_alphanumeric_char, is_whitespace_char,
};
use crate::navigator::TextNavigator;
use crate::text::{
    lemma_line_index_at_mono, lemma_line_index_at_nonneg, lemma_line_span, line_end,
    line_index_at, line_start, num_lines,
};

verus! {

/// First position at or after `p` that does not hold whitespace, or the end.
pub open spec fn skip_ws_fwd(s: Seq<char>, p: int) -> int
    decreases s.len() - p,
{
    if p < 0 || p >= s.len() {
        s.len() as int
    } else if char_is_whitespace(s[p]) {
        skip_ws_fwd(s, p + 1)
    } else {
        p
    }
}

/// First position at or after `p` that ends an alphanumeric run, or the end.
pub open spec fn skip_word_fwd(s: Seq<char>, p: int) -> int
    decreases s.len() - p,
{
    if p < 0 || p >= s.len() {
        s.len() as int
    } else if !char_is_whitespace(s[p]) && char_is_alphanumeric(s[p]) {
        skip_word_fwd(s, p + 1)
    } else {
        p
    }
}

/// First position at or after `p` that holds whitespace, or the end.
pub open spec fn skip_nonws_fwd(s: Seq<char>, p: int) -> int
    decreases s.len() - p,
{
    if p < 0 || p >= s.len() {
        s.len() as int
    } else if !char_is_whitespace(s[p]) {
        skip_nonws_fwd(s, p + 1)
    } else {
        p
    }
}

/// Last position at or before `p` not preceded by whitespace, or the start.
pub open spec fn skip_ws_back(s: Seq<char>, p: int) -> int
    decreases p,
{
    if p <= 0 {
        0
    } else if p > s.len() {
        p
    } else if char_is_whitespace(s[p - 1]) {
        skip_ws_back(s, p - 1)
    } else {
        p
    }
}

/// Last position at or before `p` not preceded by an alphanumeric run
/// character, or the start.
pub open spec fn skip_word_back(s: Seq<char>, p: int) -> int
    decreases p,
{
    if p <= 0 {
        0
    } else if p > s.len() {
        p
    } else if !char_is_whitespace(s[p - 1]) && char_is_alphanumeric(s[p - 1]) {
        skip_word_back(s, p - 1)
    } else {
        p
    }
}

/// Last position at or before `p` not preceded by a non-whitespace character,
/// or the start.
pub open spec fn skip_nonws_back(s: Seq<char>, p: int) -> int
    decreases p,
{
    if p <= 0 {
        0
    } else if p > s.len() {
        p
    } else if !char_is_whitespace(s[p - 1]) {
        skip_nonws_back(s, p - 1)
    } else {
        p
    }
}

/// Start of the word at `pos`: skip whitespace backward, then consume the
/// alphanumeric run backward.
pub open spec fn word_start_spec(s: Seq<char>, pos: int) -> int {
    skip_word_back(s, skip_ws_back(s, pos))
}

/// End of the word at `pos`: skip whitespace forward, then consume the
/// alphanumeric run forward.
pub open spec fn word_end_spec(s: Seq<char>, pos: int) -> int {
    skip_word_fwd(s, skip_ws_fwd(s, pos))
}

/// Start of the whitespace-delimited WORD at `pos`.
pub open spec fn big_word_start_spec(s: Seq<char>, pos: int) -> int {
    skip_nonws_back(s, skip_ws_back(s, pos))
}

/// End of the whitespace-delimited WORD at `pos`.
pub open spec fn big_word_end_spec(s: Seq<char>, pos: int) -> int {
    skip_nonws_fwd(s, skip_ws_fwd(s, pos))
}

pub proof fn lemma_fwd_bounds(s: Seq<char>, p: int)
    requires
        0 <= p <= s.len(),
    ensures
        p <= skip_ws_fwd(s, p) <= s.len(),
        p <= skip_word_fwd(s, p) <= s.len(),
        p <= skip_nonws_fwd(s, p) <= s.len(),
    decreases s.len() - p,
{
    if p < s.len() {
        lemma_fwd_bounds(s, p + 1);
    }
}

pub proof fn lemma_back_bounds(s: Seq<char>, p: int)
    requires
        0 <= p <= s.len(),
    ensures
        0 <= skip_ws_back(s, p) <= p,
        0 <= skip_word_back(s, p) <= p,
        0 <= skip_nonws_back(s, p) <= p,
    decreases p,
{
    if p > 0 {
        lemma_back_bounds(s, p - 1);
    }
}

pub proof fn lemma_word_bounds(s: Seq<char>, pos: int)
    requires
        0 <= pos <= s.len(),
    ensures
        pos <= word_end_spec(s, pos) <= s.len(),
        pos <= big_word_end_spec(s, pos) <= s.len(),
        0 <= word_start_spec(s, pos) <= pos,
        0 <= big_word_start_spec(s, pos) <= pos,
{
    lemma_fwd_bounds(s, pos);
    lemma_fwd_bounds(s, skip_ws_fwd(s, pos));
    lemma_back_bounds(s, pos);
    lemma_back_bounds(s, skip_ws_back(s, pos));
}

/// Find the start of the word at `char_idx`, scanning backward.
#[verifier::loop_isolation(true)]
pub fn word_start_index<N: TextNavigator>(nav: &N, char_idx: usize) -> (r: usize)
    requires
        char_idx <= nav.text().len(),
    ensures
        r == word_start_spec(nav.text(), char_idx as int),
        r <= char_idx,
{
    let ghost s = nav.text();
    proof {
        lemma_word_bounds(s, char_idx as int);
    }
    if char_idx == 0 {
        return 0;
    }
    let mut cur = char_idx;
    while cur > 0
        invariant
            s == nav.text(),
            cur <= char_idx <= s.len(),
            skip_ws_back(s, char_idx as int) == skip_ws_back(s, cur as int),
        ensures
            cur <= char_idx,
            cur as int == skip_ws_back(s, char_idx as int),
        decreases cur,
    {
        let c = nav.char_at(cur - 1).unwrap();
        if !is_whitespace_char(c) {
            break ;
        }
        cur -= 1;
    }
    while cur > 0
        invariant
            s == nav.text(),
            cur <= char_idx <= s.len(),
            skip_word_back(s, skip_ws_back(s, char_idx as int)) == skip_word_back(s, cur as int),
        ensures
            cur <= char_idx,
            cur as int == word_start_spec(s, char_idx as int),
        decreases cur,
    {
        let c = nav.char_at(cur - 1).unwrap();
        if is_whitespace_char(c) || !is_alphanumeric_char(c) {
            break ;
        }
        cur -= 1;
    }
    cur
}

/// Find the end of the word at `char_idx`, scanning forward.
#[verifier::loop_isolation(true)]
pub fn word_end_index<N: TextNavigator>(nav: &N, char_idx: usize) -> (r: usize)
    requires
        char_idx <= nav.text().len(),
    ensures
        r == word_end_spec(nav.text(), char_idx as int),
        char_idx <= r <= nav.text().len(),
{
    let ghost s = nav.text();
    proof {
        lemma_word_bounds(s, char_idx as int);
    }
    let len = nav.len_chars();
    if char_idx >= len {
        return len;
    }
    let mut cur = char_idx;
    while cur < len
        invariant
            s == nav.text(),
            len == s.len(),
            char_idx <= cur <= len,
            skip_ws_fwd(s, char_idx as int) == skip_ws_fwd(s, cur as int),
        ensures
            char_idx <= cur <= len,
            cur as int == skip_ws_fwd(s, char_idx as int),
        decreases len - cur,
    {
        let c = nav.char_at(cur).unwrap();
        if !is_whitespace_char(c) {
            break ;
        }
        cur += 1;
    }
    while cur < len
        invariant
            s == nav.text(),
            len == s.len(),
            char_idx <= cur <= len,
            skip_word_fwd(s, skip_ws_fwd(s, char_idx as int)) == skip_word_fwd(s, cur as int),
        ensures
            char_idx <= cur <= len,
            cur as int == word_end_spec(s, char_idx as int),
        decreases len - cur,
    {
        let c = nav.char_at(cur).unwrap();
        if is_whitespace_char(c) || !is_alphanumeric_char(c) {
            break ;
        }
        cur += 1;
    }
    cur
}

/// Find the start of the whitespace-delimited WORD at `char_idx`.
#[verifier::loop_isolation(true)]
pub fn big_word_start_index<N: TextNavigator>(nav: &N, char_idx: usize) -> (r: usize)
    requires
        char_idx <= nav.text().len(),
    ensures
        r == big_word_start_spec(nav.text(), char_idx as int),
        r <= char_idx,
{
    let ghost s = nav.text();
    proof {
        lemma_word_bounds(s, char_idx as int);
    }
    if char_idx == 0 {
        return 0;
    }
    let mut cur = char_idx;
    while cur > 0
        invariant
            s == nav.text(),
            cur <= char_idx <= s.len(),
            skip_ws_back(s, char_idx as int) == skip_ws_back(s, cur as int),
        ensures
            cur <= char_idx,
            cur as int == skip_ws_back(s, char_idx as int),
        decreases cur,
    {
        let c = nav.char_at(cur - 1).unwrap();
        if !is_whitespace_char(c) {
            break ;
        }
        cur -= 1;
    }
    while cur > 0
        invariant
            s == nav.text(),
            cur <= char_idx <= s.len(),
            skip_nonws_back(s, skip_ws_back(s, char_idx as int)) == skip_nonws_back(s, cur as int),
        ensures
            cur <= char_idx,
            cur as int == big_word_start_spec(s, char_idx as int),
        decreases cur,
    {
        let c = nav.char_at(cur - 1).unwrap();
        if is_whitespace_char(c) {
            break ;
        }
        cur -= 1;
    }
    cur
}

/// Find the end of the whitespace-delimited WORD at `char_idx`.
#[verifier::loop_isolation(true)]
pub fn big_word_end_index<N: TextNavigator>(nav: &N, char_idx: usize) -> (r: usize)
    requires
        char_idx <= nav.text().len(),
    ensures
        r == big_word_end_spec(nav.text(), char_idx as int),
        char_idx <= r <= nav.text().len(),
{
    let ghost s = nav.text();
    proof {
        lemma_word_bounds(s, char_idx as int);
    }
    let len = nav.len_chars();
    if char_idx >= len {
        return len;
    }
    let mut cur = char_idx;
    while cur < len
        invariant
            s == nav.text(),
            len == s.len(),
            char_idx <= cur <= len,
            skip_ws_fwd(s, char_idx as int) == skip_ws_fwd(s, cur as int),
        ensures
            char_idx <= cur <= len,
            cur as int == skip_ws_fwd(s, char_idx as int),
        decreases len - cur,
    {
        let c = nav.char_at(cur).unwrap();
        if !is_whitespace_char(c) {
            break ;
        }
        cur += 1;
    }
    while cur < len
        invariant
            s == nav.text(),
            len == s.len(),
            char_idx <= cur <= len,
            skip_nonws_fwd(s, skip_ws_fwd(s, char_idx as int)) == skip_nonws_fwd(s, cur as int),
        ensures
            char_idx <= cur <= len,
            cur as int == big_word_end_spec(s, char_idx as int),
        decreases len - cur,
    {
        let c = nav.char_at(cur).unwrap();
        if is_whitespace_char(c) {
            break ;
        }
        cur += 1;
    }
    cur
}

/// Scanning backward from `i`, the position of the enclosing open delimiter:
/// every close met on the way deepens the nesting by one, an open either
/// closes one level or, at depth zero, is the answer.
pub open spec fn scan_open_back(s: Seq<char>, i: int, open: char, close: char, depth: int) -> Option<
    int,
>
    decreases i + 1,
{
    if i < 0 || i >= s.len() {
        None
    } else if s[i] == close {
        scan_open_back(s, i - 1, open, close, depth + 1)
    } else if s[i] == open {
        if depth == 0 {
            Some(i)
        } else {
            scan_open_back(s, i - 1, open, close, depth - 1)
        }
    } else {
        scan_open_back(s, i - 1, open, close, depth)
    }
}

/// Scanning forward from `i` with the nesting depth seeded by the caller, the
/// position of the close delimiter that brings the depth to zero.
pub open spec fn scan_close_fwd(s: Seq<char>, i: int, open: char, close: char, depth: int) -> Option<
    int,
>
    decreases s.len() - i,
{
    if i < 0 || i >= s.len() {
        None
    } else if s[i] == open {
        scan_close_fwd(s, i + 1, open, close, depth + 1)
    } else if s[i] == close {
        if depth == 1 {
            Some(i)
        } else {
            scan_close_fwd(s, i + 1, open, close, depth - 1)
        }
    } else {
        scan_close_fwd(s, i + 1, open, close, depth)
    }
}

pub proof fn lemma_scan_open_back_bounds(s: Seq<char>, i: int, open: char, close: char, depth: int)
    ensures
        scan_open_back(s, i, open, close, depth) is Some ==> 0 <= scan_open_back(
            s,
            i,
            open,
            close,
            depth,
        )->0 <= i,
    decreases i + 1,
{
    if 0 <= i < s.len() {
        lemma_scan_open_back_bounds(s, i - 1, open, close, depth + 1);
        lemma_scan_open_back_bounds(s, i - 1, open, close, depth - 1);
        lemma_scan_open_back_bounds(s, i - 1, open, close, depth);
    }
}

/// Scan backward from `pos` for the enclosing open delimiter, resolving
/// nesting to the innermost enclosing pair.
pub fn find_bracket_backwards<N: TextNavigator>(
    nav: &N,
    pos: usize,
    open: char,
    close: char,
) -> (r: Option<usize>)
    requires
        pos < nav.text().len(),
    ensures
        match r {
            Some(j) => Some(j as int) == scan_open_back(nav.text(), pos as int, open, close, 0) && j
                <= pos,
            None => scan_open_back(nav.text(), pos as int, open, close, 0) is None,
        },
{
    let ghost s = nav.text();
    let mut i = pos;
    let mut depth: usize = 0;
    loop
        invariant
            i <= pos < s.len(),
            depth as int <= pos - i,
            scan_open_back(s, pos as int, open, close, 0) == scan_open_back(
                s,
                i as int,
                open,
                close,
                depth as int,
            ),
        decreases i,
    {
        let ghost d0 = depth as int;
        let c = nav.char_at(i).unwrap();
        if c == close {
            if depth == usize::MAX {
                proof {
                    lemma_scan_depth_cap(s, i as int, open, close, depth as int);
                }
                return None;
            }
            depth += 1;
        } else if c == open {
            if depth == 0 {
                return Some(i);
            }
            depth -= 1;
        }
        if i == 0 {
            proof {
                assert(scan_open_back(s, -1, open, close, d0 + 1) is None);
                assert(scan_open_back(s, -1, open, close, d0 - 1) is None);
                assert(scan_open_back(s, -1, open, close, d0) is None);
                assert(scan_open_back(s, 0, open, close, d0) is None);
            }
            return None;
        }
        i -= 1;
    }
}

/// A backward scan whose depth exceeds the number of positions left can never
/// resolve: each level needs one open delimiter of its own.
proof fn lemma_scan_depth_cap(s: Seq<char>, i: int, open: char, close: char, depth: int)
    requires
        depth > i,
    ensures
        scan_open_back(s, i, open, close, depth) is None,
    decreases i + 1,
{
    if 0 <= i < s.len() {
        lemma_scan_depth_cap(s, i - 1, open, close, depth + 1);
        if s[i] == open && depth != 0 {
            lemma_scan_depth_cap(s, i - 1, open, close, depth - 1);
        }
        lemma_scan_depth_cap(s, i - 1, open, close, depth);
    }
}

/// Scan forward from the character after `start` for the close delimiter
/// matching the open one at `start`.
#[verifier::loop_isolation(true)]
pub fn find_matching_bracket_forward<N: TextNavigator>(
    nav: &N,
    start: usize,
    open: char,
    close: char,
) -> (r: Option<usize>)
    requires
        start < nav.text().len(),
    ensures
        match r {
            Some(j) => Some(j as int) == scan_close_fwd(nav.text(), start + 1, open, close, 1)
                && start < j < nav.text().len(),
            None => scan_close_fwd(nav.text(), start + 1, open, close, 1) is None,
        },
{
    let ghost s = nav.text();
    let len = nav.len_chars();
    let mut i = start + 1;
    let mut depth: usize = 1;
    while i < len
        invariant
            s == nav.text(),
            len == s.len(),
            start < i <= len,
            1 <= depth,
            scan_close_fwd(s, start + 1, open, close, 1) == scan_close_fwd(
                s,
                i as int,
                open,
                close,
                depth as int,
            ),
        ensures
            scan_close_fwd(s, start + 1, open, close, 1) == scan_close_fwd(
                s,
                i as int,
                open,
                close,
                depth as int,
            ),
            i >= len || (depth == 1 && s[i as int] == close && s[i as int] != open),
        decreases len - i,
    {
        let c = nav.char_at(i).unwrap();
        if c == open {
            if depth == usize::MAX {
                proof {
                    lemma_scan_depth_fwd_cap(s, i as int, open, close, depth as int);
                }
                return None;
            }
            depth += 1;
        } else if c == close {
            if depth == 1 {
                break ;
            }
            depth -= 1;
        }
        i += 1;
    }
    if i < len {
        Some(i)
    } else {
        None
    }
}

/// A forward scan whose depth exceeds the positions left cannot close them
/// all.
proof fn lemma_scan_depth_fwd_cap(s: Seq<char>, i: int, open: char, close: char, depth: int)
    requires
        depth > s.len() - i,
    ensures
        scan_close_fwd(s, i, open, close, depth) is None,
    decreases s.len() - i,
{
    if 0 <= i < s.len() {
        lemma_scan_depth_fwd_cap(s, i + 1, open, close, depth + 1);
        if s[i] == close && depth != 1 {
            lemma_scan_depth_fwd_cap(s, i + 1, open, close, depth - 1);
        }
        lemma_scan_depth_fwd_cap(s, i + 1, open, close, depth);
    }
}

/// Where a matching-bracket jump from `pos` lands: from an open delimiter
/// forward to its match, from a close delimiter backward to its opener, and
/// nowhere from any other character.
pub open spec fn matching_bracket_spec(s: Seq<char>, pos: int) -> Option<int> {
    if pos < 0 || pos >= s.len() {
        None
    } else if s[pos] == '(' {
        scan_close_fwd(s, pos + 1, '(', ')', 1)
    } else if s[pos] == ')' {
        scan_open_back(s, pos - 1, '(', ')', 0)
    } else if s[pos] == '[' {
        scan_close_fwd(s, pos + 1, '[', ']', 1)
    } else if s[pos] == ']' {
        scan_open_back(s, pos - 1, '[', ']', 0)
    } else if s[pos] == '{' {
        scan_close_fwd(s, pos + 1, '{', '}', 1)
    } else if s[pos] == '}' {
        scan_open_back(s, pos - 1, '{', '}', 0)
    } else {
        None
    }
}

/// Jump from the bracket at `pos` to its match, walking with a nesting
/// counter in the direction the bracket implies.
pub fn find_matching_bracket<N: TextNavigator>(nav: &N, char_idx: usize) -> (r: Option<usize>)
    ensures
        match r {
            Some(j) => Some(j as int) == matching_bracket_spec(nav.text(), char_idx as int) && j
                < nav.text().len(),
            None => matching_bracket_spec(nav.text(), char_idx as int) is None,
        },
{
    let ghost s = nav.text();
    let len = nav.len_chars();
    if char_idx >= len {
        return None;
    }
    let c = nav.char_at(char_idx).unwrap();
    if c == '(' {
        find_matching_bracket_forward(nav, char_idx, '(', ')')
    } else if c == ')' {
        find_bracket_back_from(nav, char_idx, '(', ')')
    } else if c == '[' {
        find_matching_bracket_forward(nav, char_idx, '[', ']')
    } else if c == ']' {
        find_bracket_back_from(nav, char_idx, '[', ']')
    } else if c == '{' {
        find_matching_bracket_forward(nav, char_idx, '{', '}')
    } else if c == '}' {
        find_bracket_back_from(nav, char_idx, '{', '}')
    } else {
        None
    }
}

/// Backward jump from the close delimiter at `pos` to its opener.
fn find_bracket_back_from<N: TextNavigator>(nav: &N, pos: usize, open: char, close: char) -> (r:
    Option<usize>)
    requires
        pos < nav.text().len(),
    ensures
        match r {
            Some(j) => Some(j as int) == scan_open_back(nav.text(), pos - 1, open, close, 0) && j
                < nav.text().len(),
            None => scan_open_back(nav.text(), pos - 1, open, close, 0) is None,
        },
{
    let ghost s = nav.text();
    if pos == 0 {
        return None;
    }
    proof {
        lemma_scan_open_back_bounds(s, pos - 1, open, close, 0);
    }
    find_bracket_backwards(nav, pos - 1, open, close)
}

/// Every character of line `l` is whitespace; an empty line counts as blank.
pub open spec fn line_is_blank(s: Seq<char>, l: int) -> bool {
    forall|p: int| line_start(s, l) <= p < line_end(s, l) ==> char_is_whitespace(#[trigger] s[p])
}

/// First line of the paragraph around line `l`: walk up until the line above
/// is blank or the text begins.
pub open spec fn para_first_line(s: Seq<char>, l: int) -> int
    decreases l,
{
    if l <= 0 {
        0
    } else if line_is_blank(s, l - 1) {
        l
    } else {
        para_first_line(s, l - 1)
    }
}

/// Last line of the paragraph around line `l`: walk down until the line below
/// is blank or the text ends.
pub open spec fn para_last_line(s: Seq<char>, l: int) -> int
    decreases num_lines(s) - l,
{
    if l < 0 || l + 1 >= num_lines(s) {
        l
    } else if line_is_blank(s, l + 1) {
        l
    } else {
        para_last_line(s, l + 1)
    }
}

/// Start offset of the paragraph around `pos`: the start of its first line.
pub open spec fn paragraph_start_spec(s: Seq<char>, pos: int) -> int {
    line_start(s, para_first_line(s, line_index_at(s, pos)))
}

/// End offset of the paragraph around `pos`: the start of the line after its
/// last line, or the end of the text.
pub open spec fn paragraph_end_spec(s: Seq<char>, pos: int) -> int {
    let ll = para_last_line(s, line_index_at(s, pos));
    if ll + 1 < num_lines(s) {
        line_start(s, ll + 1)
    } else {
        s.len() as int
    }
}

pub proof fn lemma_para_first_line_bounds(s: Seq<char>, l: int)
    requires
        0 <= l,
    ensures
        0 <= para_first_line(s, l) <= l,
    decreases l,
{
    if l > 0 && !line_is_blank(s, l - 1) {
        lemma_para_first_line_bounds(s, l - 1);
    }
}

pub proof fn lemma_para_last_line_bounds(s: Seq<char>, l: int)
    requires
        0 <= l < num_lines(s),
    ensures
        l <= para_last_line(s, l) < num_lines(s),
    decreases num_lines(s) - l,
{
    if l + 1 < num_lines(s) && !line_is_blank(s, l + 1) {
        lemma_para_last_line_bounds(s, l + 1);
    }
}

/// Whether every character of line `l` is whitespace.
pub fn line_blank<N: TextNavigator>(nav: &N, l: usize) -> (r: bool)
    requires
        l < num_lines(nav.text()),
    ensures
        r == line_is_blank(nav.text(), l as int),
{
    let ghost s = nav.text();
    proof {
        lemma_line_span(s, l as int);
    }
    let nl = nav.len_lines();
    let start = nav.line_to_char(l);
    let end = if l + 1 < nl {
        nav.line_to_char(l + 1)
    } else {
        nav.len_chars()
    };
    let mut p = start;
    while p < end
        invariant
            start <= p <= end,
            end == line_end(s, l as int),
            start == line_start(s, l as int),
            forall|q: int| start <= q < p ==> char_is_whitespace(#[trigger] s[q]),
        decreases end - p,
    {
        let c = nav.char_at(p).unwrap();
        if !is_whitespace_char(c) {
            return false;
        }
        p += 1;
    }
    true
}

/// Find the start of the paragraph around `char_idx`.
#[verifier::loop_isolation(true)]
pub fn paragraph_start_index<N: TextNavigator>(nav: &N, char_idx: usize) -> (r: usize)
    requires
        char_idx <= nav.text().len(),
    ensures
        r == paragraph_start_spec(nav.text(), char_idx as int),
        r <= nav.text().len(),
{
    let ghost s = nav.text();
    let line_idx = nav.char_to_line(char_idx);
    proof {
        lemma_line_index_at_nonneg(s, char_idx as int);
        lemma_line_index_at_mono(s, char_idx as int, s.len() as int);
    }
    let mut current_line = line_idx;
    while current_line > 0
        invariant
            s == nav.text(),
            current_line <= line_idx < num_lines(s),
            para_first_line(s, line_idx as int) == para_first_line(s, current_line as int),
        ensures
            current_line as int == para_first_line(s, line_idx as int),
            current_line < num_lines(s),
        decreases current_line,
    {
        if line_blank(nav, current_line - 1) {
            break ;
        }
        current_line -= 1;
    }
    proof {
        lemma_line_span(s, current_line as int);
    }
    nav.line_to_char(current_line)
}

/// Find the end of the paragraph around `char_idx`.
#[verifier::loop_isolation(true)]
pub fn paragraph_end_index<N: TextNavigator>(nav: &N, char_idx: usize) -> (r: usize)
    requires
        char_idx <= nav.text().len(),
    ensures
        r == paragraph_end_spec(nav.text(), char_idx as int),
        r <= nav.text().len(),
{
    let ghost s = nav.text();
    let line_idx = nav.char_to_line(char_idx);
    proof {
        lemma_line_index_at_nonneg(s, char_idx as int);
        lemma_line_index_at_mono(s, char_idx as int, s.len() as int);
    }
    let max_line = nav.len_lines();
    let mut current_line = line_idx;
    while current_line < max_line && current_line + 1 < max_line
        invariant
            s == nav.text(),
            max_line == num_lines(s),
            line_idx <= current_line < max_line,
            para_last_line(s, line_idx as int) == para_last_line(s, current_line as int),
        ensures
            current_line as int == para_last_line(s, line_idx as int),
            current_line < max_line,
        decreases max_line - current_line,
    {
        if line_blank(nav, current_line + 1) {
            break ;
        }
        current_line += 1;
    }
    if current_line + 1 < max_line {
        proof {
            lemma_line_span(s, current_line as int + 1);
        }
        nav.line_to_char(current_line + 1)
    } else {
        nav.len_chars()
    }
}

} // verus!
