//! The basic text object finder: words, WORDs, lines, paragraphs and bracket
//! pairs, resolved by the scanning algorithms and specified by
//! `basic_find_at_spec`.
use vstd::prelude::*;

use crate::TextRange;
use crate::navigator::TextNavigator;
use crate::text::{
    lemma_line_index_at_mono, lemma_line_index_at_nonneg, lemma_line_span, line_end,
    line_index_at, line_start, num_lines,
};
use crate::chars::{
    char_is_alphanumeric, char_is_whitespace, is_alphanumeric_char, is_whitespace_char,
};
use crate::text_objects::{
    big_word_end_index, big_word_end_spec, big_word_start_index, big_word_start_spec,
    find_bracket_backwards, find_matching_bracket_forward, lemma_fwd_bounds,
    lemma_scan_open_back_bounds, lemma_word_bounds,
    paragraph_end_index, paragraph_end_spec, paragraph_start_index, paragraph_start_spec,
    scan_close_fwd, scan_open_back, skip_nonws_back, skip_nonws_fwd, skip_word_back,
    skip_word_fwd, word_end_index, word_end_spec, word_start_index, word_start_spec,
};
use crate::textobject::{Selection, TextObject, TextObjectKind};

verus! {

#[derive(Debug)]
pub struct BasicTextObjectFinder {
    supported: Vec<TextObjectKind>,
}

/// The finder's supported list names exactly the kinds it resolves.
pub open spec fn basic_finder_complete(b: BasicTextObjectFinder) -> bool {
    &&& forall|i: int|
        0 <= i < b.supported_kinds_spec().len() ==> basic_kind_supported(
            #[trigger] b.supported_kinds_spec()[i],
        )
    &&& forall|kind: TextObjectKind|
        basic_kind_supported(kind) ==> exists|i: int|
            0 <= i < b.supported_kinds_spec().len() && crate::textobject::kind_eq(
                #[trigger] b.supported_kinds_spec()[i],
                kind,
            )
}

/// The exact supported list the basic finder carries, in registration order.
pub open spec fn basic_kinds_list() -> Seq<TextObjectKind> {
    seq![
        TextObjectKind::Word,
        TextObjectKind::BigWord,
        TextObjectKind::Line,
        TextObjectKind::Paragraph,
        TextObjectKind::Parentheses,
        TextObjectKind::Brackets,
        TextObjectKind::Braces,
    ]
}

/// The kinds this finder resolves.
pub open spec fn basic_kind_supported(kind: TextObjectKind) -> bool {
    ||| kind is Word
    ||| kind is BigWord
    ||| kind is Line
    ||| kind is Paragraph
    ||| kind is Parentheses
    ||| kind is Braces
    ||| kind is Brackets
}

/// The range a bracket request resolves to: the innermost enclosing open
/// delimiter behind `pos`, its match ahead of it; `Around` spans both
/// delimiters, `Inner` spans what lies between them, collapsing to a
/// zero-width range just after the opener when nothing does.
pub open spec fn bracket_range_spec(
    s: Seq<char>,
    pos: int,
    open: char,
    close: char,
    mode: Selection,
) -> Option<(int, int)> {
    match scan_open_back(s, pos, open, close, 0) {
        None => None,
        Some(op) => match scan_close_fwd(s, op + 1, open, close, 1) {
            None => None,
            Some(cl) => match mode {
                Selection::Inner => if cl > op + 1 {
                    Some((op + 1, cl))
                } else {
                    Some((op + 1, op + 1))
                },
                Selection::Around => Some((op, cl + 1)),
            },
        },
    }
}

/// What `find_at` resolves `(pos, kind, mode)` to, as a pair of offsets.
pub open spec fn basic_find_at_spec(
    s: Seq<char>,
    pos: int,
    kind: TextObjectKind,
    mode: Selection,
) -> Option<(int, int)> {
    if pos < 0 || pos >= s.len() {
        None
    } else {
        match kind {
            TextObjectKind::Word => {
                // the maximal alphanumeric run containing `pos`; a position
                // on punctuation or whitespace is part of no word and yields
                // a zero-width range, which callers treat as no object
                if char_is_alphanumeric(s[pos]) && !char_is_whitespace(s[pos]) {
                    Some((skip_word_back(s, pos), skip_word_fwd(s, pos)))
                } else {
                    Some((pos, pos))
                }
            },
            TextObjectKind::BigWord => {
                // the maximal non-whitespace run containing `pos`; whitespace
                // is part of no WORD and yields a zero-width range
                if !char_is_whitespace(s[pos]) {
                    Some((skip_nonws_back(s, pos), skip_nonws_fwd(s, pos)))
                } else {
                    Some((pos, pos))
                }
            },
            TextObjectKind::Line => {
                let l = line_index_at(s, pos);
                Some((line_start(s, l), line_end(s, l)))
            },
            TextObjectKind::Paragraph => Some(
                (paragraph_start_spec(s, pos), paragraph_end_spec(s, pos)),
            ),
            TextObjectKind::Parentheses => bracket_range_spec(s, pos, '(', ')', mode),
            TextObjectKind::Brackets => bracket_range_spec(s, pos, '[', ']', mode),
            TextObjectKind::Braces => bracket_range_spec(s, pos, '{', '}', mode),
            _ => None,
        }
    }
}

/// An optional range carries exactly the offsets of an optional spec pair.
pub open spec fn range_opt_matches(r: Option<TextRange>, m: Option<(int, int)>) -> bool {
    match (r, m) {
        (Option::None, Option::None) => true,
        (Option::Some(tr), Option::Some(p)) => tr.start == p.0 && tr.end == p.1,
        _ => false,
    }
}

/// The first position after `i` (inclusive) whose resolved object is
/// non-empty and starts strictly after `pos`; the linear find-next probe. A
/// zero-width result means no object stands there, so the probe moves on.
pub open spec fn find_next_from_spec(
    s: Seq<char>,
    pos: int,
    kind: TextObjectKind,
    mode: Selection,
    i: int,
) -> Option<(int, int)>
    decreases s.len() - i,
{
    if i < 0 || i >= s.len() {
        None
    } else {
        match basic_find_at_spec(s, i, kind, mode) {
            Some(p) => if p.0 > pos && p.0 < p.1 {
                Some(p)
            } else {
                find_next_from_spec(s, pos, kind, mode, i + 1)
            },
            None => find_next_from_spec(s, pos, kind, mode, i + 1),
        }
    }
}

/// The first position below `i` (exclusive), scanning down, whose resolved
/// object is non-empty and ends at or before `pos`; the linear find-prev
/// probe.
pub open spec fn find_prev_from_spec(
    s: Seq<char>,
    pos: int,
    kind: TextObjectKind,
    mode: Selection,
    i: int,
) -> Option<(int, int)>
    decreases i + 1,
{
    if i < 0 {
        None
    } else {
        match basic_find_at_spec(s, i, kind, mode) {
            Some(p) => if p.1 <= pos && p.0 < p.1 {
                Some(p)
            } else {
                find_prev_from_spec(s, pos, kind, mode, i - 1)
            },
            None => find_prev_from_spec(s, pos, kind, mode, i - 1),
        }
    }
}

/// Walk back over the alphanumeric run ending before `pos`.
#[verifier::loop_isolation(true)]
fn word_run_back<N: TextNavigator>(nav: &N, pos: usize) -> (r: usize)
    requires
        pos <= nav.text().len(),
    ensures
        r == skip_word_back(nav.text(), pos as int),
        r <= pos,
{
    let ghost s = nav.text();
    proof {
        crate::text_objects::lemma_back_bounds(s, pos as int);
    }
    let mut cur = pos;
    while cur > 0
        invariant
            s == nav.text(),
            cur <= pos <= s.len(),
            skip_word_back(s, pos as int) == skip_word_back(s, cur as int),
        ensures
            cur as int == skip_word_back(s, pos as int),
        decreases cur,
    {
        let c = nav.char_at(cur - 1).unwrap();
        if is_whitespace_char(c) || !is_alphanumeric_char(c) {
            break ;
        }
        cur -= 1;
    }
    cur
}

/// Walk forward over the alphanumeric run starting at `pos`.
#[verifier::loop_isolation(true)]
fn word_run_fwd<N: TextNavigator>(nav: &N, pos: usize) -> (r: usize)
    requires
        pos <= nav.text().len(),
    ensures
        r == skip_word_fwd(nav.text(), pos as int),
        pos <= r <= nav.text().len(),
{
    let ghost s = nav.text();
    proof {
        lemma_fwd_bounds(s, pos as int);
    }
    let len = nav.len_chars();
    let mut cur = pos;
    while cur < len
        invariant
            s == nav.text(),
            len == s.len(),
            pos <= cur <= len,
            skip_word_fwd(s, pos as int) == skip_word_fwd(s, cur as int),
        ensures
            cur as int == skip_word_fwd(s, pos as int),
        decreases len - cur,
    {
        let c = nav.char_at(cur).unwrap();
        if is_whitespace_char(c) || !is_alphanumeric_char(c) {
            break ;
        }
        cur += 1;
    }
    cur
}

/// Walk back over the non-whitespace run ending before `pos`.
#[verifier::loop_isolation(true)]
fn nonws_run_back<N: TextNavigator>(nav: &N, pos: usize) -> (r: usize)
    requires
        pos <= nav.text().len(),
    ensures
        r == skip_nonws_back(nav.text(), pos as int),
        r <= pos,
{
    let ghost s = nav.text();
    proof {
        crate::text_objects::lemma_back_bounds(s, pos as int);
    }
    let mut cur = pos;
    while cur > 0
        invariant
            s == nav.text(),
            cur <= pos <= s.len(),
            skip_nonws_back(s, pos as int) == skip_nonws_back(s, cur as int),
        ensures
            cur as int == skip_nonws_back(s, pos as int),
        decreases cur,
    {
        let c = nav.char_at(cur - 1).unwrap();
        if is_whitespace_char(c) {
            break ;
        }
        cur -= 1;
    }
    cur
}

/// Walk forward over the non-whitespace run starting at `pos`.
#[verifier::loop_isolation(true)]
fn nonws_run_fwd<N: TextNavigator>(nav: &N, pos: usize) -> (r: usize)
    requires
        pos <= nav.text().len(),
    ensures
        r == skip_nonws_fwd(nav.text(), pos as int),
        pos <= r <= nav.text().len(),
{
    let ghost s = nav.text();
    proof {
        lemma_fwd_bounds(s, pos as int);
    }
    let len = nav.len_chars();
    let mut cur = pos;
    while cur < len
        invariant
            s == nav.text(),
            len == s.len(),
            pos <= cur <= len,
            skip_nonws_fwd(s, pos as int) == skip_nonws_fwd(s, cur as int),
        ensures
            cur as int == skip_nonws_fwd(s, pos as int),
        decreases len - cur,
    {
        let c = nav.char_at(cur).unwrap();
        if is_whitespace_char(c) {
            break ;
        }
        cur += 1;
    }
    cur
}

impl BasicTextObjectFinder {
    pub fn new() -> (r: BasicTextObjectFinder)
        ensures
            r.supported_kinds_spec() == basic_kinds_list(),
            basic_finder_complete(r),
    {
        let mut supported: Vec<TextObjectKind> = Vec::new();
        supported.push(TextObjectKind::Word);
        supported.push(TextObjectKind::BigWord);
        supported.push(TextObjectKind::Line);
        supported.push(TextObjectKind::Paragraph);
        supported.push(TextObjectKind::Parentheses);
        supported.push(TextObjectKind::Brackets);
        supported.push(TextObjectKind::Braces);
        let r = BasicTextObjectFinder { supported };
        proof {
            assert(r.supported_kinds_spec() =~= basic_kinds_list());
            assert forall|kind: TextObjectKind| basic_kind_supported(kind) implies exists|i: int|
                0 <= i < r.supported_kinds_spec().len() && crate::textobject::kind_eq(
                    #[trigger] r.supported_kinds_spec()[i],
                    kind,
                ) by {
                if kind is Word {
                    assert(crate::textobject::kind_eq(r.supported_kinds_spec()[0], kind));
                } else if kind is BigWord {
                    assert(crate::textobject::kind_eq(r.supported_kinds_spec()[1], kind));
                } else if kind is Line {
                    assert(crate::textobject::kind_eq(r.supported_kinds_spec()[2], kind));
                } else if kind is Paragraph {
                    assert(crate::textobject::kind_eq(r.supported_kinds_spec()[3], kind));
                } else if kind is Parentheses {
                    assert(crate::textobject::kind_eq(r.supported_kinds_spec()[4], kind));
                } else if kind is Brackets {
                    assert(crate::textobject::kind_eq(r.supported_kinds_spec()[5], kind));
                } else {
                    assert(crate::textobject::kind_eq(r.supported_kinds_spec()[6], kind));
                }
            }
        }
        r
    }

    pub closed spec fn supported_kinds_spec(&self) -> Seq<TextObjectKind> {
        self.supported@
    }

    /// The kinds this finder can resolve.
    pub fn supported_kinds(&self) -> (r: &Vec<TextObjectKind>)
        ensures
            r@ == self.supported_kinds_spec(),
    {
        &self.supported
    }

    /// Whether this finder handles the request's kind.
    pub fn can_handle(&self, text_obj: &TextObject) -> (r: bool)
        ensures
            r == exists|i: int|
                0 <= i < self.supported_kinds_spec().len() && crate::textobject::kind_eq(
                    #[trigger] self.supported_kinds_spec()[i],
                    text_obj.kind,
                ),
    {
        let mut i: usize = 0;
        while i < self.supported.len()
            invariant
                i <= self.supported@.len(),
                forall|j: int|
                    0 <= j < i ==> !crate::textobject::kind_eq(
                        #[trigger] self.supported@[j],
                        text_obj.kind,
                    ),
            decreases self.supported@.len() - i,
        {
            if self.supported[i].eq(&text_obj.kind) {
                proof {
                    assert(crate::textobject::kind_eq(
                        self.supported_kinds_spec()[i as int],
                        text_obj.kind,
                    ));
                }
                return true;
            }
            i += 1;
        }
        false
    }

    pub fn word_start<N: TextNavigator>(&self, navigator: &N, pos: usize) -> (r: usize)
        requires
            pos <= navigator.text().len(),
        ensures
            r == word_start_spec(navigator.text(), pos as int),
            r <= pos,
    {
        word_start_index(navigator, pos)
    }

    pub fn word_end<N: TextNavigator>(&self, navigator: &N, pos: usize) -> (r: usize)
        requires
            pos <= navigator.text().len(),
        ensures
            r == word_end_spec(navigator.text(), pos as int),
            pos <= r <= navigator.text().len(),
    {
        word_end_index(navigator, pos)
    }

    pub fn big_word_start<N: TextNavigator>(&self, navigator: &N, pos: usize) -> (r: usize)
        requires
            pos <= navigator.text().len(),
        ensures
            r == big_word_start_spec(navigator.text(), pos as int),
            r <= pos,
    {
        big_word_start_index(navigator, pos)
    }

    pub fn big_word_end<N: TextNavigator>(&self, navigator: &N, pos: usize) -> (r: usize)
        requires
            pos <= navigator.text().len(),
        ensures
            r == big_word_end_spec(navigator.text(), pos as int),
            pos <= r <= navigator.text().len(),
    {
        big_word_end_index(navigator, pos)
    }

    pub fn paragraph_start<N: TextNavigator>(&self, navigator: &N, pos: usize) -> (r: usize)
        requires
            pos <= navigator.text().len(),
        ensures
            r == paragraph_start_spec(navigator.text(), pos as int),
            r <= navigator.text().len(),
    {
        paragraph_start_index(navigator, pos)
    }

    pub fn paragraph_end<N: TextNavigator>(&self, navigator: &N, pos: usize) -> (r: usize)
        requires
            pos <= navigator.text().len(),
        ensures
            r == paragraph_end_spec(navigator.text(), pos as int),
            r <= navigator.text().len(),
    {
        paragraph_end_index(navigator, pos)
    }

    /// Resolve a bracket-pair request at `pos`.
    pub fn find_bracket_range<N: TextNavigator>(
        &self,
        navigator: &N,
        pos: usize,
        open: char,
        close: char,
        selection: Selection,
    ) -> (r: Option<TextRange>)
        requires
            pos < navigator.text().len(),
        ensures
            range_opt_matches(r, bracket_range_spec(navigator.text(), pos as int, open, close, selection)),
    {
        let ghost s = navigator.text();
        let len = navigator.len_chars();
        let open_pos = match find_bracket_backwards(navigator, pos, open, close) {
            None => {
                return None;
            },
            Some(p) => p,
        };
        proof {
            lemma_scan_open_back_bounds(s, pos as int, open, close, 0);
        }
        let close_pos = match find_matching_bracket_forward(navigator, open_pos, open, close) {
            None => {
                return None;
            },
            Some(p) => p,
        };
        match selection {
            Selection::Inner => {
                if close_pos > open_pos + 1 {
                    Some(TextRange::new(open_pos + 1, close_pos))
                } else {
                    Some(TextRange::new(open_pos + 1, open_pos + 1))
                }
            },
            Selection::Around => Some(TextRange::new(open_pos, close_pos + 1)),
        }
    }

    /// Resolve the requested text object at `pos`, or nothing where the text
    /// holds none of that kind.
    pub fn find_at<N: TextNavigator>(&self, navigator: &N, pos: usize, text_obj: &TextObject) -> (r:
        Option<TextRange>)
        ensures
            range_opt_matches(
                r,
                basic_find_at_spec(navigator.text(), pos as int, text_obj.kind, text_obj.selection),
            ),
    {
        let ghost s = navigator.text();
        if pos >= navigator.len_chars() {
            return None;
        }
        match &text_obj.kind {
            TextObjectKind::Word => {
                let c = navigator.char_at(pos).unwrap();
                if is_alphanumeric_char(c) && !is_whitespace_char(c) {
                    proof {
                        crate::text_objects::lemma_back_bounds(s, pos as int);
                        lemma_fwd_bounds(s, pos as int);
                    }
                    let start = word_run_back(navigator, pos);
                    let end = word_run_fwd(navigator, pos);
                    Some(TextRange::new(start, end))
                } else {
                    Some(TextRange::new(pos, pos))
                }
            },
            TextObjectKind::BigWord => {
                let c = navigator.char_at(pos).unwrap();
                if !is_whitespace_char(c) {
                    proof {
                        crate::text_objects::lemma_back_bounds(s, pos as int);
                        lemma_fwd_bounds(s, pos as int);
                    }
                    let start = nonws_run_back(navigator, pos);
                    let end = nonws_run_fwd(navigator, pos);
                    Some(TextRange::new(start, end))
                } else {
                    Some(TextRange::new(pos, pos))
                }
            },
            TextObjectKind::Line => {
                proof {
                    lemma_line_index_at_nonneg(s, pos as int);
                    lemma_line_index_at_mono(s, pos as int, s.len() as int);
                }
                let line_idx = navigator.char_to_line(pos);
                proof {
                    lemma_line_span(s, line_idx as int);
                }
                let nl = navigator.len_lines();
                let start = navigator.line_to_char(line_idx);
                let end = if line_idx + 1 < nl {
                    navigator.line_to_char(line_idx + 1)
                } else {
                    navigator.len_chars()
                };
                Some(TextRange::new(start, end))
            },
            TextObjectKind::Paragraph => {
                let start = self.paragraph_start(navigator, pos);
                let end = self.paragraph_end(navigator, pos);
                Some(TextRange::new(start, end))
            },
            TextObjectKind::Parentheses => {
                self.find_bracket_range(navigator, pos, '(', ')', text_obj.selection)
            },
            TextObjectKind::Brackets => {
                self.find_bracket_range(navigator, pos, '[', ']', text_obj.selection)
            },
            TextObjectKind::Braces => {
                self.find_bracket_range(navigator, pos, '{', '}', text_obj.selection)
            },
            _ => None,
        }
    }

    /// Probe forward from `pos` for the next non-empty object of the
    /// requested kind that starts strictly after `pos`.
    #[verifier::loop_isolation(true)]
    pub fn find_next<N: TextNavigator>(&self, navigator: &N, pos: usize, text_obj: &TextObject) -> (r:
        Option<TextRange>)
        ensures
            pos < usize::MAX ==> range_opt_matches(
                r,
                find_next_from_spec(
                    navigator.text(),
                    pos as int,
                    text_obj.kind,
                    text_obj.selection,
                    pos + 1,
                ),
            ),
            pos == usize::MAX ==> r is None,
    {
        let ghost s = navigator.text();
        let len = navigator.len_chars();
        if pos >= len || pos == usize::MAX {
            proof {
                if pos < usize::MAX {
                    assert(find_next_from_spec(
                        s,
                        pos as int,
                        text_obj.kind,
                        text_obj.selection,
                        pos + 1,
                    ) is None);
                }
            }
            return None;
        }
        let mut i = pos + 1;
        while i < len
            invariant
                s == navigator.text(),
                pos < i <= len,
                len == s.len(),
                find_next_from_spec(s, pos as int, text_obj.kind, text_obj.selection, pos + 1)
                    == find_next_from_spec(s, pos as int, text_obj.kind, text_obj.selection, i as int),
            ensures
                s == navigator.text(),
                pos < i,
                find_next_from_spec(s, pos as int, text_obj.kind, text_obj.selection, pos + 1)
                    == find_next_from_spec(s, pos as int, text_obj.kind, text_obj.selection, i as int),
                i >= len || (match basic_find_at_spec(
                    s,
                    i as int,
                    text_obj.kind,
                    text_obj.selection,
                ) {
                    Some(p) => p.0 > pos && p.0 < p.1,
                    None => false,
                }),
            decreases len - i,
        {
            if let Some(range) = self.find_at(navigator, i, text_obj) {
                if range.start > pos && range.start < range.end {
                    break ;
                }
            }
            i += 1;
        }
        if i < len {
            self.find_at(navigator, i, text_obj)
        } else {
            None
        }
    }

    /// Probe backward from `pos` for the previous non-empty object of the
    /// requested kind that ends at or before `pos`.
    pub fn find_prev<N: TextNavigator>(&self, navigator: &N, pos: usize, text_obj: &TextObject) -> (r:
        Option<TextRange>)
        ensures
            range_opt_matches(
                r,
                find_prev_from_spec(
                    navigator.text(),
                    pos as int,
                    text_obj.kind,
                    text_obj.selection,
                    pos - 1,
                ),
            ),
    {
        let ghost s = navigator.text();
        if pos == 0 {
            return None;
        }
        let mut i = pos - 1;
        loop
            invariant
                0 <= i < pos,
                find_prev_from_spec(s, pos as int, text_obj.kind, text_obj.selection, pos - 1)
                    == find_prev_from_spec(s, pos as int, text_obj.kind, text_obj.selection, i as int),
            decreases i,
        {
            if let Some(range) = self.find_at(navigator, i, text_obj) {
                if range.end <= pos && range.start < range.end {
                    return Some(range);
                }
            }
            if i == 0 {
                proof {
                    assert(find_prev_from_spec(
                        s,
                        pos as int,
                        text_obj.kind,
                        text_obj.selection,
                        -1,
                    ) is None);
                }
                return None;
            }
            i -= 1;
        }
    }
}

impl Default for BasicTextObjectFinder {
    fn default() -> (r: BasicTextObjectFinder)
        ensures
            r.supported_kinds_spec() == basic_kinds_list(),
            basic_finder_complete(r),
    {
        BasicTextObjectFinder::new()
    }
}

} // verus!
