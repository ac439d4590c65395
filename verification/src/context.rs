//! One editing context: a buffer, its selection, and its history, mutated
//! together so that every recorded transaction can be undone exactly and
//! every undone one replayed exactly. The well-formedness invariant states
//! that the selection lies within the buffer and that both history stacks are
//! honest: each undo entry really produces the current text from the text it
//! was applied to, and each redo entry really applies to the text the
//! undo steps above it leave behind.
use vstd::prelude::*;

use vstd::string::StrSliceExecFns;

use crate::buffer::Buffer;
use crate::edit::{
    Edit, apply_edit_spec, apply_edits_spec, apply_in_order_spec, edits_applicable,
    lemma_apply_desc_last_bound, lemma_apply_invert, lemma_desc_apply_in_order,
    lemma_unapply_restores, removed_matches, sorted_desc, transaction_wf, unapply_from,
};
use crate::history::{
    History, HistoryEntry, deleted_consistent, edit_sane, entries_wf, entry_wf, has_effective,
};
use crate::navigator::TextNavigator;
use crate::selection::Selection;
use crate::text::{
    lemma_line_index_at_mono, lemma_line_index_at_nonneg, lemma_line_start, lemma_line_start_le,
    line_index_at, line_start, num_lines,
};

verus! {

/// Every entry of the undo stack, from the top down, really took the text it
/// is paired with to the text above it: un-applying it yields a text over
/// which its edits form a well-formed descending transaction, its captured
/// removed text is what those edits removed, and re-applying them gives the
/// paired text back.
pub open spec fn undo_honest(stack: Seq<HistoryEntry>, text: Seq<char>) -> bool
    decreases stack.len(),
{
    stack.len() == 0 || {
        let top = stack.last();
        let prev = unapply_from(text, top.edits@, top.deleted_texts@);
        &&& entry_wf(top)
        &&& sorted_desc(top.edits@)
        &&& transaction_wf(prev, top.edits@)
        &&& removed_matches(prev, top.edits@, top.deleted_texts@)
        &&& apply_edits_spec(prev, top.edits@) == text
        &&& undo_honest(stack.drop_last(), prev)
    }
}

/// Every entry of the redo stack, from the top down, is a well-formed
/// descending transaction over the text it will replay against, with its
/// captured removed text intact.
pub open spec fn redo_honest(stack: Seq<HistoryEntry>, text: Seq<char>) -> bool
    decreases stack.len(),
{
    stack.len() == 0 || {
        let top = stack.last();
        &&& entry_wf(top)
        &&& sorted_desc(top.edits@)
        &&& transaction_wf(text, top.edits@)
        &&& removed_matches(text, top.edits@, top.deleted_texts@)
        &&& redo_honest(stack.drop_last(), apply_edits_spec(text, top.edits@))
    }
}

/// The context after one undo: with an empty undo stack nothing changed;
/// otherwise the most recent transaction was un-applied in reverse entry
/// order, moved to the redo stack, and the cursor sits where the first
/// inverse edit acts.
pub open spec fn undo_applied(o: Context, n: Context) -> bool {
    if o.undo_entries().len() == 0 {
        n.text() == o.text() && n.sel() == o.sel() && n.undo_entries() == o.undo_entries()
            && n.redo_entries() == o.redo_entries()
    } else {
        let top = o.undo_entries().last();
        &&& n.text() == unapply_from(o.text(), top.edits@, top.deleted_texts@)
        &&& apply_edits_spec(n.text(), top.edits@) == o.text()
        &&& n.undo_entries() == o.undo_entries().drop_last()
        &&& n.redo_entries() == o.redo_entries().push(top)
        &&& top.edits@.len() > 0 ==> n.cursor_at(top.edits@.last().start as int)
        &&& top.edits@.len() == 0 ==> n.cursor_at(0)
    }
}

/// The context after one redo: with an empty redo stack nothing changed;
/// otherwise the most recently undone transaction was replayed with its
/// original edits, moved back to the undo stack, and the cursor sits after
/// its last edit.
pub open spec fn redo_applied(o: Context, n: Context) -> bool {
    if o.redo_entries().len() == 0 {
        n.text() == o.text() && n.sel() == o.sel() && n.undo_entries() == o.undo_entries()
            && n.redo_entries() == o.redo_entries()
    } else {
        let top = o.redo_entries().last();
        &&& n.text() == apply_edits_spec(o.text(), top.edits@)
        &&& n.undo_entries() == o.undo_entries().push(top)
        &&& n.redo_entries() == o.redo_entries().drop_last()
        &&& top.edits@.len() > 0 ==> n.cursor_at(cursor_after_edits(top.edits@))
        &&& top.edits@.len() == 0 ==> n.cursor_at(0)
    }
}

/// REDO FIDELITY. An undo followed by a redo, with no edit in between,
/// restores exactly the buffer that stood before the undo, puts both history
/// stacks back as they were, and restores the selection whenever it was the
/// one the undone transaction had produced.
pub proof fn lemma_redo_restores(o: Context, u: Context, n: Context)
    requires
        o.undo_entries().len() > 0,
        undo_applied(o, u),
        redo_applied(u, n),
    ensures
        n.text() == o.text(),
        n.undo_entries() == o.undo_entries(),
        n.redo_entries() == o.redo_entries(),
        o.undo_entries().last().edits@.len() > 0 && o.cursor_at(
            cursor_after_edits(o.undo_entries().last().edits@),
        ) ==> n.sel() == o.sel(),
{
    let top = o.undo_entries().last();
    assert(u.redo_entries() == o.redo_entries().push(top));
    assert(u.redo_entries().last() == top);
    assert(n.text() == apply_edits_spec(u.text(), top.edits@));
    assert(n.undo_entries() =~= o.undo_entries()) by {
        assert(u.undo_entries() == o.undo_entries().drop_last());
        assert(n.undo_entries() == u.undo_entries().push(top));
    }
    assert(n.redo_entries() =~= o.redo_entries());
    if top.edits@.len() > 0 && o.cursor_at(cursor_after_edits(top.edits@)) {
        assert(n.cursor_at(cursor_after_edits(top.edits@)));
        assert(n.sel().anchor == o.sel().anchor && n.sel().head == o.sel().head);
    }
}

/// Where the cursor lands after a transaction: just after the text the last
/// edit inserted, or at the start of the range it removed.
pub open spec fn cursor_after_edits(edits: Seq<Edit>) -> int {
    let e = edits.last();
    if e.text@.len() == 0 {
        e.start as int
    } else {
        e.start + e.text@.len()
    }
}

#[derive(Debug)]
pub struct Context {
    buffer: Buffer,
    selection: Selection,
    history: History,
}

/// Statistics of one buffer and its selection.
#[derive(Debug, Clone, Copy)]
pub struct BufferStats {
    pub total_chars: usize,
    pub total_lines: usize,
    pub selected_chars: usize,
    pub current_line: usize,
    pub current_column: usize,
    pub is_modified: bool,
}

impl Context {
    pub closed spec fn text(&self) -> Seq<char> {
        self.buffer.text()
    }

    pub closed spec fn sel(&self) -> Selection {
        self.selection
    }

    pub closed spec fn spec_modified(&self) -> bool {
        self.buffer.spec_modified()
    }

    pub closed spec fn spec_path(&self) -> Option<String> {
        self.buffer.spec_path()
    }

    pub closed spec fn undo_entries(&self) -> Seq<HistoryEntry> {
        self.history.undo_entries()
    }

    pub closed spec fn redo_entries(&self) -> Seq<HistoryEntry> {
        self.history.redo_entries()
    }

    /// The selection after the context: a cursor at `pos`.
    pub open spec fn cursor_at(&self, pos: int) -> bool {
        self.sel().anchor == pos && self.sel().head == pos
    }

    pub open spec fn wf(&self) -> bool {
        &&& self.sel().anchor <= self.text().len()
        &&& self.sel().head <= self.text().len()
        &&& entries_wf(self.undo_entries())
        &&& entries_wf(self.redo_entries())
        &&& undo_honest(self.undo_entries(), self.text())
        &&& redo_honest(self.redo_entries(), self.text())
    }

    /// Everything but the selection is as it was.
    pub open spec fn same_but_selection(&self, other: &Context) -> bool {
        &&& self.text() == other.text()
        &&& self.undo_entries() == other.undo_entries()
        &&& self.redo_entries() == other.redo_entries()
    }

    pub fn new() -> (r: Context)
        ensures
            r.wf(),
            r.text() == Seq::<char>::empty(),
            r.cursor_at(0),
            r.undo_entries().len() == 0,
            r.redo_entries().len() == 0,
    {
        Context { buffer: Buffer::new(), selection: Selection::new(0, 0), history: History::new() }
    }

    pub fn with_content(content: &str) -> (r: Context)
        ensures
            r.wf(),
            r.text() == content@,
            r.cursor_at(0),
            r.undo_entries().len() == 0,
            r.redo_entries().len() == 0,
    {
        Context {
            buffer: Buffer::from_str(content),
            selection: Selection::new(0, 0),
            history: History::new(),
        }
    }

    pub fn buffer(&self) -> (r: &Buffer)
        ensures
            r.text() == self.text(),
    {
        &self.buffer
    }

    pub fn selection(&self) -> (r: &Selection)
        ensures
            *r == self.sel(),
    {
        &self.selection
    }

    pub fn history(&self) -> (r: &History)
        ensures
            r.undo_entries() == self.undo_entries(),
            r.redo_entries() == self.redo_entries(),
    {
        &self.history
    }

    /// Mark the buffer saved or modified.
    pub fn set_modified(&mut self, modified: bool)
        requires
            old(self).wf(),
        ensures
            final(self).wf(),
            final(self).same_but_selection(old(self)),
            final(self).sel() == old(self).sel(),
            final(self).spec_modified() == modified,
            final(self).spec_path() == old(self).spec_path(),
    {
        self.buffer.set_modified(modified);
    }

    /// Record where the buffer is saved.
    pub fn set_path(&mut self, path: Option<String>)
        requires
            old(self).wf(),
        ensures
            final(self).wf(),
            final(self).same_but_selection(old(self)),
            final(self).sel() == old(self).sel(),
            final(self).spec_modified() == old(self).spec_modified(),
            final(self).spec_path() == path,
    {
        self.buffer.set_path(path);
    }

    /// Collapse the selection to a cursor at `pos`.
    pub fn cursor_to(&mut self, pos: usize)
        requires
            old(self).wf(),
            pos <= old(self).text().len(),
        ensures
            final(self).wf(),
            final(self).same_but_selection(old(self)),
            final(self).cursor_at(pos as int),
    {
        self.selection.cursor_to(pos);
    }

    /// Set the selection's two ends; `head` may lie on either side.
    pub fn set_selection(&mut self, anchor: usize, head: usize)
        requires
            old(self).wf(),
            anchor <= old(self).text().len(),
            head <= old(self).text().len(),
        ensures
            final(self).wf(),
            final(self).same_but_selection(old(self)),
            final(self).sel().anchor == anchor,
            final(self).sel().head == head,
    {
        self.selection.set_range(anchor, head);
    }

    /// Apply a transaction: capture what each edit removes, apply the edits,
    /// record the transaction, and put the cursor after the last edit. The
    /// edits must be expressed against the current text, pairwise disjoint,
    /// with distinct starts, listed in descending order of start, so that the
    /// recorded transaction can later be undone in reverse order.
    #[verifier::rlimit(100)]
    pub fn apply_edits(&mut self, edits: Vec<Edit>)
        requires
            old(self).wf(),
            transaction_wf(old(self).text(), edits@),
            sorted_desc(edits@),
        ensures
            final(self).wf(),
            edits@.len() == 0 ==> final(self).text() == old(self).text() && final(self).sel()
                == old(self).sel() && final(self).undo_entries() == old(self).undo_entries()
                && final(self).redo_entries() == old(self).redo_entries(),
            edits@.len() > 0 ==> {
                &&& final(self).text() == apply_edits_spec(old(self).text(), edits@)
                &&& final(self).cursor_at(cursor_after_edits(edits@))
                &&& final(self).spec_modified()
                &&& final(self).redo_entries().len() == 0
                &&& has_effective(edits@) ==> final(self).undo_entries().len() == old(
                    self,
                ).undo_entries().len() + 1 && final(self).undo_entries().last().edits@ == edits@
                    && removed_matches(
                    old(self).text(),
                    edits@,
                    final(self).undo_entries().last().deleted_texts@,
                ) && final(self).undo_entries().drop_last() == old(self).undo_entries()
                &&& !has_effective(edits@) ==> final(self).undo_entries() == old(
                    self,
                ).undo_entries()
            },
    {
        let n = edits.len();
        if n == 0 {
            return ;
        }
        let ghost orig = self.text();
        proof {
            lemma_desc_apply_in_order(orig, edits@);
            assert(edits@.skip(0) =~= edits@);
        }
        let mut deleted: Vec<String> = Vec::new();
        let ghost mut frontier: int = orig.len() as int;
        let mut i: usize = 0;
        while i < n
            invariant
                i <= n,
                deleted@.len() == i,
                i > 0 ==> self.buffer.spec_modified(),
                self.selection == old(self).selection,
                self.history == old(self).history,
                self.buffer.objects_spec() == old(self).buffer.objects_spec(),
                0 <= frontier <= self.text().len(),
                frontier <= orig.len(),
                self.text().take(frontier) == orig.take(frontier),
                forall|k: int| i <= k < n ==> (#[trigger] edits@[k]).end <= frontier,
                self.text() == apply_in_order_spec(orig, edits@.take(i as int)),
                edits_applicable(self.text(), edits@.skip(i as int)),
                forall|k: int|
                    0 <= k < i ==> (#[trigger] deleted@[k])@ == orig.subrange(
                        edits@[k].start as int,
                        edits@[k].end as int,
                    ),
                forall|k: int| 0 <= k < i ==> edit_sane(#[trigger] edits@[k]),
                (forall|k: int| 0 <= k < i ==> (#[trigger] edits@[k]).spec_is_noop())
                    ==> self.text() == orig,
            decreases n - i,
        {
            let ghost pre = self.text();
            let ghost rest = edits@.skip(i as int);
            proof {
                assert(rest[0] == edits@[i as int]);
                assert(rest.drop_first() =~= edits@.skip(i + 1));
                assert(edits@.take(i as int).push(edits@[i as int]) =~= edits@.take(i + 1));
            }
            let e = &edits[i];
            let ghost ed = edits@[i as int];
            let cap = self.buffer.apply_edit(e);
            proof {
                crate::edit::lemma_apply_in_order_snoc(orig, edits@.take(i as int), ed);
                // the captured text is what the edit removed from the original
                assert(cap@ =~= orig.subrange(ed.start as int, ed.end as int)) by {
                    assert forall|j: int| 0 <= j < ed.end - ed.start implies pre.subrange(
                        ed.start as int,
                        ed.end as int,
                    )[j] == orig.subrange(ed.start as int, ed.end as int)[j] by {
                        assert(pre.take(frontier)[ed.start + j] == orig.take(frontier)[ed.start
                            + j]);
                    }
                }
                // prefix below this edit's start is still original
                let nf = ed.start as int;
                assert(self.text().take(nf) =~= orig.take(nf)) by {
                    assert forall|j: int| 0 <= j < nf implies self.text().take(nf)[j] == orig.take(
                        nf,
                    )[j] by {
                        assert(self.text()[j] == pre.take(ed.start as int)[j]);
                        assert(pre.take(frontier)[j] == orig.take(frontier)[j]);
                    }
                }
                assert forall|k: int| i + 1 <= k < n implies (#[trigger] edits@[k]).end
                    <= nf by {
                    assert(edits@[k].start < ed.start);
                    assert(edits@[k].end <= ed.start || ed.end <= edits@[k].start);
                }
                frontier = nf;
                if ed.spec_is_noop() {
                    assert(self.text().len() == pre.len());
                    assert forall|j: int| 0 <= j < pre.len() implies self.text()[j] == pre[j] by {
                        if j < ed.start {
                            assert(self.text()[j] == pre.take(ed.start as int)[j]);
                        } else {
                            assert(self.text()[j] == pre.skip(ed.end as int)[j - ed.start]);
                        }
                    }
                    assert(self.text() =~= pre);
                }
            }
            let nl = self.buffer.len_chars();
            proof {
                assert(nl >= ed.start + ed.text@.len());
            }
            deleted.push(cap);
            i += 1;
        }
        proof {
            assert(edits@.take(n as int) =~= edits@);
            assert(self.text() == apply_edits_spec(orig, edits@));
            lemma_apply_desc_last_bound(orig, edits@);
        }
        let last = n - 1;
        let pos = if edits[last].text.as_str().is_empty() {
            edits[last].start
        } else {
            let tlen = edits[last].text.as_str().unicode_len();
            edits[last].start + tlen
        };
        self.selection.cursor_to(pos);
        let ghost new_text = self.text();
        let ghost deleted_snapshot = deleted@;
        self.history.record(edits, deleted);
        proof {
            if has_effective(edits@) {
                let top = self.history.undo_entries().last();
                assert(removed_matches(orig, top.edits@, top.deleted_texts@));
                lemma_unapply_restores(orig, edits@, deleted_snapshot);
                assert(undo_honest(self.history.undo_entries(), new_text));
            } else {
                assert(forall|k: int| 0 <= k < n ==> (#[trigger] edits@[k]).spec_is_noop());
                assert(new_text == orig);
            }
        }
    }

    /// Undo the most recent transaction: un-apply its edits in reverse order
    /// and put the cursor where the first inverse edit acts. With nothing to
    /// undo, a normal no-op.
    pub fn undo_once(&mut self)
        requires
            old(self).wf(),
        ensures
            final(self).wf(),
            undo_applied(*old(self), *final(self)),
    {
        let ghost text0 = self.text();
        let ghost stack0 = self.history.undo_entries();
        match self.history.undo() {
            None => {},
            Some(inverse) => {
                let ghost top = stack0.last();
                let ghost prev = unapply_from(text0, top.edits@, top.deleted_texts@);
                proof {
                    lemma_apply_invert(prev, top.edits@, top.deleted_texts@, inverse@);
                    assert(edits_applicable(self.text(), inverse@));
                }
                self.buffer.apply_in_order(&inverse);
                proof {
                    assert(self.text() == prev);
                }
                let pos = if inverse.len() > 0 {
                    inverse[0].position()
                } else {
                    0
                };
                proof {
                    if inverse@.len() > 0 {
                        assert(inverse@[0].start == top.edits@.last().start);
                        assert(top.edits@.last().end <= prev.len());
                    }
                }
                self.selection.cursor_to(pos);
                proof {
                    assert(undo_honest(stack0, text0));
                    let newredo = self.history.redo_entries();
                    assert(newredo.last() == top);
                    assert(newredo.drop_last() =~= old(self).redo_entries());
                    assert(apply_edits_spec(prev, top.edits@) == text0);
                    assert(redo_honest(old(self).redo_entries(), text0));
                    assert(redo_honest(newredo, prev));
                }
            },
        }
    }

    /// Replay the most recently undone transaction with its original edits
    /// and captured removed text, and put the cursor after its last edit.
    /// With nothing to redo, a normal no-op.
    pub fn redo_once(&mut self)
        requires
            old(self).wf(),
        ensures
            final(self).wf(),
            redo_applied(*old(self), *final(self)),
    {
        let ghost text0 = self.text();
        let ghost stack0 = self.history.redo_entries();
        match self.history.redo() {
            None => {},
            Some(eds) => {
                let ghost top = stack0.last();
                proof {
                    lemma_desc_apply_in_order(text0, eds@);
                }
                self.buffer.apply_in_order(&eds);
                let pos = if eds.len() == 0 {
                    0
                } else {
                    proof {
                        lemma_apply_desc_last_bound(text0, eds@);
                    }
                    let last = eds.len() - 1;
                    if eds[last].text.as_str().is_empty() {
                        eds[last].start
                    } else {
                        let tlen = eds[last].text.as_str().unicode_len();
                        eds[last].start + tlen
                    }
                };
                self.selection.cursor_to(pos);
                proof {
                    assert(redo_honest(stack0, text0));
                    lemma_unapply_restores(text0, top.edits@, top.deleted_texts@);
                    let newundo = self.history.undo_entries();
                    assert(newundo.last() == top);
                    assert(newundo.drop_last() =~= old(self).undo_entries());
                    assert(self.text() == apply_edits_spec(text0, top.edits@));
                    assert(unapply_from(self.text(), top.edits@, top.deleted_texts@) == text0);
                    assert(undo_honest(old(self).undo_entries(), text0));
                    assert(undo_honest(newundo, self.text()));
                }
            },
        }
    }

    /// The line the cursor's head is on, 1-based.
    pub fn current_line(&self) -> (r: usize)
        requires
            self.wf(),
            self.text().len() < usize::MAX,
        ensures
            r == line_index_at(self.text(), self.sel().head as int) + 1,
    {
        proof {
            lemma_line_index_at_nonneg(self.text(), self.sel().head as int);
            lemma_line_index_at_mono(self.text(), self.sel().head as int, self.text().len() as int);
        }
        self.buffer.char_to_line(self.selection.head) + 1
    }

    /// The column the cursor's head is in, 1-based.
    pub fn current_column(&self) -> (r: usize)
        requires
            self.wf(),
            self.text().len() < usize::MAX,
        ensures
            r == self.sel().head - line_start(
                self.text(),
                line_index_at(self.text(), self.sel().head as int),
            ) + 1,
    {
        proof {
            lemma_line_index_at_nonneg(self.text(), self.sel().head as int);
            lemma_line_index_at_mono(self.text(), self.sel().head as int, self.text().len() as int);
            lemma_line_start_le(self.text(), self.sel().head as int);
            lemma_line_start(self.text(), line_index_at(self.text(), self.sel().head as int));
        }
        let line = self.buffer.char_to_line(self.selection.head);
        let line_start_pos = self.buffer.line_to_char(line);
        self.selection.head - line_start_pos + 1
    }

    /// Statistics about the buffer and selection.
    pub fn buffer_stats(&self) -> (r: BufferStats)
        requires
            self.wf(),
            self.text().len() < usize::MAX,
        ensures
            r.total_chars == self.text().len(),
            r.total_lines == num_lines(self.text()),
            r.selected_chars == self.sel().spec_end() - self.sel().spec_start(),
            r.current_line == line_index_at(self.text(), self.sel().head as int) + 1,
            r.current_column == self.sel().head - line_start(
                self.text(),
                line_index_at(self.text(), self.sel().head as int),
            ) + 1,
            r.is_modified == self.spec_modified(),
    {
        let total_chars = self.buffer.len_chars();
        let total_lines = self.buffer.len_lines();
        let (sel_start, sel_end) = self.selection.range();
        let selected_chars = sel_end - sel_start;
        BufferStats {
            total_chars,
            total_lines,
            selected_chars,
            current_line: self.current_line(),
            current_column: self.current_column(),
            is_modified: self.buffer.is_modified(),
        }
    }
}

impl Default for Context {
    fn default() -> (r: Context)
        ensures
            r.wf(),
            r.text() == Seq::<char>::empty(),
            r.cursor_at(0),
    {
        Context::new()
    }
}

} // verus!
