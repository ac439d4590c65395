//! The document buffer: rope-backed character storage together with the
//! transactional edit application of this library. Edits of one transaction
//! are expressed against the buffer as it stood before the transaction; they
//! are applied in descending order of `start` so that no edit disturbs the
//! offsets of another, while the removed text is reported aligned to the
//! original input order.
use vstd::prelude::*;

use crate::TextRange;
use crate::navigator::TextNavigator;
use crate::edit::{
    Edit, apply_edit_spec, apply_edits_spec, apply_in_order_spec, argmax_start_from,
    edit_in_bounds, edits_applicable, max_start_index, transaction_wf,
};
use crate::rope_store::{
    rope_char, rope_char_to_line, rope_chars, rope_from_str, rope_insert, rope_len_chars,
    rope_len_lines, rope_line_to_char, rope_new, rope_remove, rope_slice_string,
};
use crate::text::{lemma_line_span, line_end, line_index_at, line_start, num_lines};
use crate::textobject::{TextObject, TextObjectKind};
use crate::textobjects_registry::{
    RegisteredFinder, TextObjectRegistry, capable_index, registry_find_at_spec,
    registry_find_next_spec, registry_find_prev_spec,
};
use crate::finder_basic::{basic_finder_complete, range_opt_matches};

verus! {

#[derive(Debug)]
pub struct Buffer {
    content: ropey::Rope,
    path: Option<String>,
    modified: bool,
    text_objects: TextObjectRegistry,
}

/// The sequence of edits carried by a sequence of (original index, edit)
/// pairs.
pub open spec fn pair_edits(rem: Seq<(usize, Edit)>) -> Seq<Edit> {
    rem.map_values(|p: (usize, Edit)| p.1)
}

/// Whether original index `i` still waits in the worklist.
pub open spec fn index_in_rem(rem: Seq<(usize, Edit)>, i: int) -> bool {
    exists|k: int| 0 <= k < rem.len() && (#[trigger] rem[k]).0 == i
}

impl TextNavigator for Buffer {
    /// The characters the buffer holds.
    closed spec fn text(&self) -> Seq<char> {
        rope_chars(self.content)
    }

    fn len_chars(&self) -> (n: usize) {
        rope_len_chars(&self.content)
    }

    fn len_lines(&self) -> (n: usize) {
        rope_len_lines(&self.content)
    }

    fn char_at(&self, pos: usize) -> (c: Option<char>) {
        if pos < rope_len_chars(&self.content) {
            Some(rope_char(&self.content, pos))
        } else {
            None
        }
    }

    fn char_to_line(&self, pos: usize) -> (l: usize) {
        rope_char_to_line(&self.content, pos)
    }

    fn line_to_char(&self, line: usize) -> (p: usize) {
        rope_line_to_char(&self.content, line)
    }

    fn slice_to_string(&self, start: usize, end: usize) -> (s: String) {
        if start <= end && end <= rope_len_chars(&self.content) {
            rope_slice_string(&self.content, start, end)
        } else {
            String::new()
        }
    }
}

impl Buffer {
    pub closed spec fn spec_path(&self) -> Option<String> {
        self.path
    }

    pub closed spec fn spec_modified(&self) -> bool {
        self.modified
    }

    pub closed spec fn objects_spec(&self) -> Seq<RegisteredFinder> {
        self.text_objects.finders_spec()
    }

    /// Replace the buffer's text object capabilities.
    pub fn with_text_objects(self, registry: TextObjectRegistry) -> (r: Buffer)
        ensures
            r.text() == self.text(),
            r.spec_path() == self.spec_path(),
            r.spec_modified() == self.spec_modified(),
            r.objects_spec() == registry.finders_spec(),
    {
        Buffer {
            content: self.content,
            path: self.path,
            modified: self.modified,
            text_objects: registry,
        }
    }

    /// Resolve a text object at `pos` through the buffer's finder registry.
    pub fn find_text_object_at(&self, pos: usize, text_obj: &TextObject) -> (r: Option<TextRange>)
        ensures
            range_opt_matches(
                r,
                registry_find_at_spec(
                    self.objects_spec(),
                    self.text(),
                    pos as int,
                    text_obj.kind,
                    text_obj.selection,
                ),
            ),
    {
        self.text_objects.find_at(self, pos, text_obj)
    }

    /// Resolve the next occurrence of a text object after `pos`.
    pub fn find_text_object_next(&self, pos: usize, text_obj: &TextObject) -> (r: Option<TextRange>)
        ensures
            pos < usize::MAX ==> range_opt_matches(
                r,
                registry_find_next_spec(
                    self.objects_spec(),
                    self.text(),
                    pos as int,
                    text_obj.kind,
                    text_obj.selection,
                ),
            ),
            pos == usize::MAX ==> r is None,
    {
        self.text_objects.find_next(self, pos, text_obj)
    }

    /// Resolve the previous occurrence of a text object before `pos`.
    pub fn find_text_object_prev(&self, pos: usize, text_obj: &TextObject) -> (r: Option<TextRange>)
        ensures
            range_opt_matches(
                r,
                registry_find_prev_spec(
                    self.objects_spec(),
                    self.text(),
                    pos as int,
                    text_obj.kind,
                    text_obj.selection,
                ),
            ),
    {
        self.text_objects.find_prev(self, pos, text_obj)
    }

    /// Whether some registered finder handles the kind.
    pub fn supports_text_object(&self, kind: &TextObjectKind) -> (r: bool)
        ensures
            r == (capable_index(self.objects_spec(), *kind) is Some),
    {
        self.text_objects.supports(kind)
    }

    pub fn new() -> (r: Buffer)
        ensures
            r.text() == Seq::<char>::empty(),
            r.spec_path() is None,
            !r.spec_modified(),
    {
        Buffer {
            content: rope_new(),
            path: None,
            modified: false,
            text_objects: TextObjectRegistry::with_defaults(),
        }
    }

    pub fn from_str(text: &str) -> (r: Buffer)
        ensures
            r.text() == text@,
            r.spec_path() is None,
            !r.spec_modified(),
    {
        Buffer {
            content: rope_from_str(text),
            path: None,
            modified: false,
            text_objects: TextObjectRegistry::with_defaults(),
        }
    }

    /// Read access to the underlying rope.
    pub fn content(&self) -> (r: &ropey::Rope)
        ensures
            rope_chars(*r) == self.text(),
    {
        &self.content
    }

    pub fn len_chars(&self) -> (n: usize)
        ensures
            n == self.text().len(),
    {
        rope_len_chars(&self.content)
    }

    pub fn len_lines(&self) -> (n: usize)
        ensures
            n == num_lines(self.text()),
    {
        rope_len_lines(&self.content)
    }

    pub fn path(&self) -> (r: Option<&String>)
        ensures
            r is Some <==> self.spec_path() is Some,
            r is Some ==> r->0 == self.spec_path()->0,
    {
        self.path.as_ref()
    }

    pub fn set_path(&mut self, path: Option<String>)
        ensures
            final(self).spec_path() == path,
            final(self).text() == old(self).text(),
            final(self).spec_modified() == old(self).spec_modified(),
            final(self).objects_spec() == old(self).objects_spec(),
    {
        self.path = path;
    }

    pub fn is_modified(&self) -> (r: bool)
        ensures
            r == self.spec_modified(),
    {
        self.modified
    }

    pub fn set_modified(&mut self, modified: bool)
        ensures
            final(self).spec_modified() == modified,
            final(self).text() == old(self).text(),
            final(self).spec_path() == old(self).spec_path(),
            final(self).objects_spec() == old(self).objects_spec(),
    {
        self.modified = modified;
    }

    pub fn char_to_line(&self, char_idx: usize) -> (l: usize)
        requires
            char_idx <= self.text().len(),
        ensures
            l == line_index_at(self.text(), char_idx as int),
    {
        rope_char_to_line(&self.content, char_idx)
    }

    pub fn line_to_char(&self, line_idx: usize) -> (p: usize)
        requires
            line_idx < num_lines(self.text()),
        ensures
            p == line_start(self.text(), line_idx as int),
    {
        rope_line_to_char(&self.content, line_idx)
    }

    pub fn char_at(&self, pos: usize) -> (c: Option<char>)
        ensures
            pos < self.text().len() ==> c == Some(self.text()[pos as int]),
            pos >= self.text().len() ==> c is None,
    {
        if pos < self.len_chars() {
            Some(rope_char(&self.content, pos))
        } else {
            None
        }
    }

    pub fn slice_to_string(&self, start: usize, end: usize) -> (s: String)
        ensures
            start <= end <= self.text().len() ==> s@ == self.text().subrange(
                start as int,
                end as int,
            ),
            !(start <= end <= self.text().len()) ==> s@ == Seq::<char>::empty(),
    {
        if start <= end && end <= self.len_chars() {
            rope_slice_string(&self.content, start, end)
        } else {
            String::new()
        }
    }

    /// The text of a range, or the empty string for an empty or invalid one.
    pub fn text_in_range(&self, range: &TextRange) -> (s: String)
        ensures
            range.start < range.end && range.end <= self.text().len() ==> s@
                == self.text().subrange(range.start as int, range.end as int),
            !(range.start < range.end && range.end <= self.text().len()) ==> s@
                == Seq::<char>::empty(),
    {
        if range.start >= range.end || range.end > self.len_chars() {
            String::new()
        } else {
            rope_slice_string(&self.content, range.start, range.end)
        }
    }

    /// The text of line `line_idx`, including its terminating line break on
    /// every line but the last.
    pub fn line(&self, line_idx: usize) -> (s: String)
        requires
            line_idx < num_lines(self.text()),
        ensures
            s@ == self.text().subrange(
                line_start(self.text(), line_idx as int),
                line_end(self.text(), line_idx as int),
            ),
    {
        proof {
            lemma_line_span(self.text(), line_idx as int);
        }
        let nl = self.len_lines();
        let start = self.line_to_char(line_idx);
        let end = if line_idx + 1 < nl {
            self.line_to_char(line_idx + 1)
        } else {
            self.len_chars()
        };
        rope_slice_string(&self.content, start, end)
    }

    /// Apply one edit against the current text, returning the removed text.
    pub fn apply_edit(&mut self, edit: &Edit) -> (removed: String)
        requires
            edit_in_bounds(old(self).text(), *edit),
        ensures
            final(self).text() == apply_edit_spec(old(self).text(), *edit),
            removed@ == old(self).text().subrange(edit.start as int, edit.end as int),
            final(self).spec_path() == old(self).spec_path(),
            final(self).objects_spec() == old(self).objects_spec(),
            final(self).spec_modified(),
    {
        let removed = rope_slice_string(&self.content, edit.start, edit.end);
        rope_remove(&mut self.content, edit.start, edit.end);
        rope_insert(&mut self.content, edit.start, edit.text.as_str());
        self.modified = true;
        proof {
            let s = old(self).text();
            let mid = s.take(edit.start as int) + s.skip(edit.end as int);
            assert(mid.take(edit.start as int) =~= s.take(edit.start as int));
            assert(mid.skip(edit.start as int) =~= s.skip(edit.end as int));
        }
        removed
    }

    /// Apply a whole transaction. The edits may arrive in any order; they are
    /// applied in descending order of `start`, and the removed text comes
    /// back aligned to the input order.
    #[verifier::rlimit(100)]
    pub fn apply(&mut self, edits: &Vec<Edit>) -> (removed: Vec<String>)
        requires
            transaction_wf(old(self).text(), edits@),
        ensures
            final(self).text() == apply_edits_spec(old(self).text(), edits@),
            removed@.len() == edits@.len(),
            forall|i: int|
                0 <= i < edits@.len() ==> (#[trigger] removed@[i])@ == old(self).text().subrange(
                    edits@[i].start as int,
                    edits@[i].end as int,
                ),
            final(self).spec_path() == old(self).spec_path(),
            final(self).objects_spec() == old(self).objects_spec(),
            edits@.len() > 0 ==> final(self).spec_modified(),
            edits@.len() == 0 ==> final(self).spec_modified() == old(self).spec_modified(),
    {
        let ghost orig = self.text();
        let n = edits.len();
        let mut removed: Vec<String> = Vec::new();
        let mut idx: usize = 0;
        while idx < n
            invariant
                removed@.len() == idx <= n,
            decreases n - idx,
        {
            removed.push(String::new());
            idx += 1;
        }
        let mut rem: Vec<(usize, Edit)> = Vec::new();
        let mut i: usize = 0;
        while i < n
            invariant
                rem@.len() == i <= n,
                forall|k: int| 0 <= k < i ==> (#[trigger] rem@[k]).0 == k && rem@[k].1 == edits@[k],
            decreases n - i,
        {
            rem.push((i, edits[i].clone()));
            i += 1;
        }
        let ghost mut frontier: int = orig.len() as int;
        proof {
            assert(pair_edits(rem@) =~= edits@);
            assert(self.text().take(frontier) =~= orig.take(frontier));
            assert forall|i2: int| 0 <= i2 < n implies index_in_rem(rem@, i2) by {
                assert(rem@[i2].0 == i2);
            }
        }
        while rem.len() > 0
            invariant
                removed@.len() == n,
                n == edits@.len(),
                rem@.len() <= n,
                self.path == old(self).path,
                self.text_objects == old(self).text_objects,
                rem@.len() < n ==> self.modified,
                rem@.len() == n ==> self.modified == old(self).modified,
                forall|k: int|
                    0 <= k < rem@.len() ==> (#[trigger] rem@[k]).0 < n
                        && rem@[k].1 == edits@[rem@[k].0 as int],
                forall|k1: int, k2: int|
                    0 <= k1 < k2 < rem@.len()
                        ==> (#[trigger] rem@[k1]).0 != (#[trigger] rem@[k2]).0,
                0 <= frontier <= self.text().len(),
                frontier <= orig.len(),
                self.text().take(frontier) == orig.take(frontier),
                forall|k: int|
                    0 <= k < rem@.len() ==> edits@[(#[trigger] rem@[k]).0 as int].end <= frontier,
                apply_edits_spec(orig, edits@) == apply_edits_spec(self.text(), pair_edits(rem@)),
                forall|i2: int|
                    0 <= i2 < n && !index_in_rem(rem@, i2) ==> (#[trigger] removed@[i2])@
                        == orig.subrange(edits@[i2].start as int, edits@[i2].end as int),
            decreases rem@.len(),
        {
            let ghost rem_old = rem@;
            let ghost cur = self.text();
            let mut best: usize = 0;
            let mut k: usize = 1;
            while k < rem.len()
                invariant
                    rem@ == rem_old,
                    best < k <= rem@.len(),
                    1 <= k,
                    rem@.len() > 0,
                    argmax_start_from(pair_edits(rem@), k as int, best as int) == max_start_index(
                        pair_edits(rem@),
                    ),
                decreases rem@.len() - k,
            {
                if rem[k].1.start > rem[best].1.start {
                    best = k;
                }
                k += 1;
            }
            proof {
                assert(best as int == max_start_index(pair_edits(rem@)));
            }
            let pair = rem.remove(best);
            let oi = pair.0;
            let e = pair.1;
            let ghost eseq = pair_edits(rem_old);
            proof {
                assert(eseq[best as int] == e);
                assert(pair_edits(rem@) =~= eseq.remove(best as int));
                // the picked edit has the greatest start among the worklist
                crate::edit::lemma_max_start_index(eseq);
            }
            let cap = rope_slice_string(&self.content, e.start, e.end);
            proof {
                assert(cap@ =~= orig.subrange(e.start as int, e.end as int)) by {
                    assert forall|j: int| 0 <= j < e.end - e.start implies cur.subrange(
                        e.start as int,
                        e.end as int,
                    )[j] == orig.subrange(e.start as int, e.end as int)[j] by {
                        assert(cur.take(frontier)[e.start + j] == orig.take(frontier)[e.start + j]);
                    }
                }
            }
            rope_remove(&mut self.content, e.start, e.end);
            rope_insert(&mut self.content, e.start, e.text.as_str());
            self.modified = true;
            removed[oi] = cap;
            proof {
                // the new text is the one-edit application
                let mid = cur.take(e.start as int) + cur.skip(e.end as int);
                assert(mid.take(e.start as int) =~= cur.take(e.start as int));
                assert(mid.skip(e.start as int) =~= cur.skip(e.end as int));
                assert(self.text() == apply_edit_spec(cur, e));
                // every other waiting edit lies entirely before `e.start`
                assert forall|k2: int| 0 <= k2 < rem@.len() implies edits@[(
                #[trigger] rem@[k2]).0 as int].end <= e.start as int by {
                    let o2 = rem@[k2].0 as int;
                    let k3 = if k2 < best as int {
                        k2
                    } else {
                        k2 + 1
                    };
                    assert(rem_old[k3].0 as int == o2);
                    assert(eseq[k3] == edits@[o2]);
                    assert(edits@[o2].start <= e.start);
                    assert(edits@[o2].start != e.start);
                    if edits@[o2].end > e.start {
                        // then the ranges would overlap, contrary to wf
                        let ob = rem_old[best as int].0 as int;
                        assert(edits@[ob] == e);
                        if o2 < ob {
                            assert(edits@[o2].end <= edits@[ob].start || edits@[ob].end
                                <= edits@[o2].start);
                        } else {
                            assert(edits@[ob].end <= edits@[o2].start || edits@[o2].end
                                <= edits@[ob].start);
                        }
                    }
                }
                // prefix below the new frontier is still the original text
                let nf = e.start as int;
                assert(self.text().take(nf) =~= orig.take(nf)) by {
                    assert forall|j: int| 0 <= j < nf implies self.text().take(nf)[j] == orig.take(
                        nf,
                    )[j] by {
                        assert(self.text()[j] == cur.take(e.start as int)[j]);
                        assert(cur.take(frontier)[j] == orig.take(frontier)[j]);
                    }
                }
                frontier = nf;
                // removed-text bookkeeping: indices other than `oi` keep their
                // witnesses, shifted across the removal point
                assert forall|i2: int|
                    0 <= i2 < n && !index_in_rem(rem@, i2) && i2 != oi as int implies (
                #[trigger] removed@[i2])@ == orig.subrange(
                    edits@[i2].start as int,
                    edits@[i2].end as int,
                ) by {
                    if index_in_rem(rem_old, i2) {
                        let kw = choose|kw: int|
                            0 <= kw < rem_old.len() && (#[trigger] rem_old[kw]).0 == i2;
                        if kw < best as int {
                            assert(rem@[kw].0 == i2);
                        } else if kw > best as int {
                            assert(rem@[kw - 1].0 == i2);
                        }
                        assert(index_in_rem(rem@, i2));
                    }
                }
            }
        }
        proof {
            assert(pair_edits(rem@).len() == 0);
        }
        removed
    }

    /// Apply edits one at a time, in the order given, each read against the
    /// text left by the previous one. Undo and redo replay their transactions
    /// through this path.
    pub fn apply_in_order(&mut self, edits: &Vec<Edit>)
        requires
            edits_applicable(old(self).text(), edits@),
        ensures
            final(self).text() == apply_in_order_spec(old(self).text(), edits@),
            final(self).spec_path() == old(self).spec_path(),
            final(self).objects_spec() == old(self).objects_spec(),
            edits@.len() > 0 ==> final(self).spec_modified(),
            edits@.len() == 0 ==> final(self).spec_modified() == old(self).spec_modified(),
    {
        let ghost orig = self.text();
        let n = edits.len();
        proof {
            assert(edits@.skip(0) =~= edits@);
        }
        let mut i: usize = 0;
        while i < n
            invariant
                i <= n,
                self.path == old(self).path,
                self.objects_spec() == old(self).objects_spec(),
                i > 0 ==> self.modified,
                i == 0 ==> self.modified == old(self).modified,
                edits_applicable(self.text(), edits@.skip(i as int)),
                apply_in_order_spec(orig, edits@) == apply_in_order_spec(
                    self.text(),
                    edits@.skip(i as int),
                ),
            decreases n - i,
        {
            let ghost pre = self.text();
            let ghost rest = edits@.skip(i as int);
            proof {
                assert(rest[0] == edits@[i as int]);
                assert(rest.drop_first() =~= edits@.skip(i + 1));
            }
            let e = &edits[i];
            let _ = self.apply_edit(e);
            i += 1;
        }
        proof {
            assert(edits@.skip(n as int) =~= Seq::<Edit>::empty());
        }
    }
}

impl Default for Buffer {
    fn default() -> (r: Buffer)
        ensures
            r.text() == Seq::<char>::empty(),
            r.spec_path() is None,
            !r.spec_modified(),
    {
        Buffer::new()
    }
}

} // verus!
