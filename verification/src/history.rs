//! The undo/redo engine. A transaction is recorded together with the text
//! its edits removed, captured when it was applied; its inverse is built from
//! that captured text by processing the entries in reverse order, so the edit
//! applied last is un-applied first. Undo moves a transaction, captured text
//! and all, onto the redo stack; redo moves it back and replays the original
//! edits without recomputing anything.
use vstd::prelude::*;

use vstd::string::StrSliceExecFns;

use crate::edit::{
    Edit, apply_edits_spec, apply_in_order_spec, inverse_matches, is_inverse_of, removed_matches,
    sorted_desc, transaction_wf,
};

verus! {

/// One recorded transaction: the edits, paired index by index with the text
/// each removed when it was applied.
#[derive(Debug)]
pub struct HistoryEntry {
    pub edits: Vec<Edit>,
    pub deleted_texts: Vec<String>,
}

/// An edit whose inverse can be formed: offsets ordered, and the span of its
/// inserted text expressible as an offset.
pub open spec fn edit_sane(e: Edit) -> bool {
    e.start <= e.end && e.start + e.text@.len() <= usize::MAX
}

/// The removed text paired with an edit that removed nothing is empty.
pub open spec fn deleted_consistent(e: Edit, deleted: Seq<char>) -> bool {
    e.start == e.end ==> deleted.len() == 0
}

pub open spec fn entry_wf(entry: HistoryEntry) -> bool {
    &&& entry.edits@.len() == entry.deleted_texts@.len()
    &&& forall|i: int| 0 <= i < entry.edits@.len() ==> edit_sane(#[trigger] entry.edits@[i])
    &&& forall|i: int|
        0 <= i < entry.edits@.len() ==> deleted_consistent(
            #[trigger] entry.edits@[i],
            entry.deleted_texts@[i]@,
        )
}

/// Every entry of a stack is well formed.
pub open spec fn entries_wf(es: Seq<HistoryEntry>) -> bool {
    forall|i: int| 0 <= i < es.len() ==> entry_wf(#[trigger] es[i])
}

/// At least one edit actually changes something.
pub open spec fn has_effective(edits: Seq<Edit>) -> bool {
    exists|i: int| 0 <= i < edits.len() && !(#[trigger] edits[i]).spec_is_noop()
}

#[derive(Debug)]
pub struct History {
    undo_stack: Vec<HistoryEntry>,
    redo_stack: Vec<HistoryEntry>,
}

impl History {
    pub closed spec fn undo_entries(&self) -> Seq<HistoryEntry> {
        self.undo_stack@
    }

    pub closed spec fn redo_entries(&self) -> Seq<HistoryEntry> {
        self.redo_stack@
    }

    pub open spec fn wf(&self) -> bool {
        entries_wf(self.undo_entries()) && entries_wf(self.redo_entries())
    }

    pub fn new() -> (r: History)
        ensures
            r.undo_entries() == Seq::<HistoryEntry>::empty(),
            r.redo_entries() == Seq::<HistoryEntry>::empty(),
            r.wf(),
    {
        History { undo_stack: Vec::new(), redo_stack: Vec::new() }
    }

    /// A transaction with no effective edit is ignored by `record`.
    pub fn should_ignore_edits(edits: &Vec<Edit>) -> (r: bool)
        ensures
            r == !has_effective(edits@),
    {
        let mut i: usize = 0;
        while i < edits.len()
            invariant
                i <= edits@.len(),
                forall|j: int| 0 <= j < i ==> (#[trigger] edits@[j]).spec_is_noop(),
            decreases edits@.len() - i,
        {
            if !edits[i].is_noop() {
                return false;
            }
            i += 1;
        }
        true
    }

    /// Record a freshly applied transaction: push it if it holds at least one
    /// effective edit — an empty or all-noop transaction is never recorded —
    /// and unconditionally clear the redo stack, so that a new transaction
    /// invalidates everything that had been undone.
    pub fn record(&mut self, edits: Vec<Edit>, deleted_texts: Vec<String>)
        requires
            old(self).wf(),
            edits@.len() == deleted_texts@.len(),
            forall|i: int| 0 <= i < edits@.len() ==> edit_sane(#[trigger] edits@[i]),
            forall|i: int|
                0 <= i < edits@.len() ==> deleted_consistent(
                    #[trigger] edits@[i],
                    deleted_texts@[i]@,
                ),
        ensures
            final(self).wf(),
            final(self).redo_entries() == Seq::<HistoryEntry>::empty(),
            has_effective(edits@) ==> final(self).undo_entries().len() == old(self).undo_entries().len() + 1 && final(self).undo_entries().last().edits@ == edits@
                && final(self).undo_entries().last().deleted_texts@ == deleted_texts@ && final(self).undo_entries().drop_last() == old(self).undo_entries(),
            !has_effective(edits@) ==> final(self).undo_entries() == old(self).undo_entries(),
    {
        if !Self::should_ignore_edits(&edits) {
            let entry = HistoryEntry { edits, deleted_texts };
            self.undo_stack.push(entry);
            proof {
                assert(self.undo_stack@.drop_last() =~= old(self).undo_stack@);
                assert(entry_wf(entry));
                assert(entries_wf(self.undo_stack@)) by {
                    assert forall|i: int| 0 <= i < self.undo_stack@.len() implies entry_wf(
                        #[trigger] self.undo_stack@[i],
                    ) by {
                        if i < old(self).undo_stack@.len() {
                            assert(self.undo_stack@[i] == old(self).undo_entries()[i]);
                        } else {
                            assert(self.undo_stack@[i] == entry);
                        }
                    }
                }
            }
        }
        self.redo_stack.clear();
    }

    /// Record a transaction given as (edit, removed text) pairs.
    pub fn record_with_context(&mut self, edits: Vec<(Edit, String)>)
        requires
            old(self).wf(),
            forall|i: int| 0 <= i < edits@.len() ==> edit_sane((#[trigger] edits@[i]).0),
            forall|i: int|
                0 <= i < edits@.len() ==> deleted_consistent(
                    (#[trigger] edits@[i]).0,
                    edits@[i].1@,
                ),
        ensures
            final(self).wf(),
            final(self).redo_entries() == Seq::<HistoryEntry>::empty(),
            has_effective(edits@.map_values(|p: (Edit, String)| p.0)) ==> final(self).undo_entries().len() == old(self).undo_entries().len() + 1 && final(self).undo_entries().last().edits@ == edits@.map_values(|p: (Edit, String)| p.0) && final(self).undo_entries().last().deleted_texts@ == edits@.map_values(|p: (Edit, String)| p.1)
                && final(self).undo_entries().drop_last() == old(self).undo_entries(),
            !has_effective(edits@.map_values(|p: (Edit, String)| p.0)) ==> final(self).undo_entries() == old(self).undo_entries(),
    {
        let mut es: Vec<Edit> = Vec::new();
        let mut ds: Vec<String> = Vec::new();
        let n = edits.len();
        let mut i: usize = 0;
        while i < n
            invariant
                es@.len() == i <= n,
                ds@.len() == i,
                forall|k: int| 0 <= k < i ==> es@[k] == (#[trigger] edits@[k]).0,
                forall|k: int| 0 <= k < i ==> ds@[k] == (#[trigger] edits@[k]).1,
            decreases n - i,
        {
            let e = edits[i].0.clone();
            let d = edits[i].1.clone();
            es.push(e);
            ds.push(d);
            i += 1;
        }
        proof {
            assert(es@ =~= edits@.map_values(|p: (Edit, String)| p.0));
            assert(ds@ =~= edits@.map_values(|p: (Edit, String)| p.1));
        }
        self.record(es, ds);
    }

    /// The inverse of one recorded edit, built from the text it removed.
    pub fn invert_edit(edit: &Edit, deleted_text: &str) -> (r: Edit)
        requires
            edit_sane(*edit),
            deleted_consistent(*edit, deleted_text@),
        ensures
            inverse_matches(r, *edit, deleted_text@),
    {
        proof {
            if edit.start == edit.end {
                assert(deleted_text@ =~= Seq::<char>::empty());
            }
        }
        if edit.is_insert() {
            Self::invert_insertion(edit)
        } else if edit.is_delete() {
            Self::invert_deletion(edit, deleted_text)
        } else if edit.is_replace() {
            Self::invert_replacement(edit, deleted_text)
        } else {
            Self::invert_noop(edit)
        }
    }

    /// An insertion is undone by deleting the inserted span.
    pub fn invert_insertion(edit: &Edit) -> (r: Edit)
        requires
            edit_sane(*edit),
        ensures
            r.start == edit.start,
            r.end == edit.start + edit.text@.len(),
            r.text@ == Seq::<char>::empty(),
    {
        let len = edit.text.as_str().unicode_len();
        Edit::delete(edit.start, edit.start + len)
    }

    /// A deletion is undone by inserting the removed text back.
    pub fn invert_deletion(edit: &Edit, deleted_text: &str) -> (r: Edit)
        ensures
            r.start == edit.start,
            r.end == edit.start,
            r.text@ == deleted_text@,
    {
        Edit::insert(edit.start, deleted_text.to_owned())
    }

    /// A replacement is undone by replacing the inserted span with the
    /// removed text.
    pub fn invert_replacement(edit: &Edit, deleted_text: &str) -> (r: Edit)
        requires
            edit_sane(*edit),
        ensures
            r.start == edit.start,
            r.end == edit.start + edit.text@.len(),
            r.text@ == deleted_text@,
    {
        let len = edit.text.as_str().unicode_len();
        Edit::replace(edit.start, edit.start + len, deleted_text.to_owned())
    }

    /// A noop is its own inverse.
    pub fn invert_noop(edit: &Edit) -> (r: Edit)
        ensures
            r.start == edit.start,
            r.end == edit.start,
            r.text@ == Seq::<char>::empty(),
    {
        Edit::insert(edit.start, String::new())
    }

    /// The inverse transaction: entries processed in reverse order, each
    /// inverted with its captured removed text.
    pub fn invert_transaction(entry: &HistoryEntry) -> (r: Vec<Edit>)
        requires
            entry_wf(*entry),
        ensures
            is_inverse_of(r@, entry.edits@, entry.deleted_texts@),
    {
        let n = entry.edits.len();
        let mut r: Vec<Edit> = Vec::new();
        let mut i: usize = 0;
        while i < n
            invariant
                r@.len() == i <= n,
                forall|k: int|
                    0 <= k < i ==> inverse_matches(
                        #[trigger] r@[k],
                        entry.edits@[n - 1 - k],
                        entry.deleted_texts@[n - 1 - k]@,
                    ),
            decreases n - i,
        {
            let j = n - 1 - i;
            let inv = Self::invert_edit(&entry.edits[j], entry.deleted_texts[j].as_str());
            r.push(inv);
            i += 1;
        }
        r
    }

    /// Pop the most recent transaction, move it to the redo stack, and return
    /// its inverse for the caller to apply. The caller must not re-record the
    /// inverse. An empty history is a normal no-op, not an error.
    pub fn undo(&mut self) -> (r: Option<Vec<Edit>>)
        requires
            old(self).wf(),
        ensures
            final(self).wf(),
            old(self).undo_entries().len() == 0 ==> r is None && final(self).undo_entries()
                == old(self).undo_entries() && final(self).redo_entries() == old(self).redo_entries(),
            old(self).undo_entries().len() > 0 ==> r is Some && is_inverse_of(
                r->0@,
                old(self).undo_entries().last().edits@,
                old(self).undo_entries().last().deleted_texts@,
            ) && final(self).undo_entries() == old(self).undo_entries().drop_last() && final(self).redo_entries() == old(self).redo_entries().push(old(self).undo_entries().last()),
    {
        match self.undo_stack.pop() {
            None => None,
            Some(top) => {
                proof {
                    assert(top == old(self).undo_entries().last());
                    assert(self.undo_stack@ =~= old(self).undo_entries().drop_last());
                }
                let inverse = Self::invert_transaction(&top);
                self.redo_stack.push(top);
                proof {
                    assert(entries_wf(self.redo_stack@)) by {
                        assert forall|i: int| 0 <= i < self.redo_stack@.len() implies entry_wf(
                            #[trigger] self.redo_stack@[i],
                        ) by {
                            if i < old(self).redo_stack@.len() {
                                assert(self.redo_stack@[i] == old(self).redo_entries()[i]);
                            } else {
                                assert(self.redo_stack@[i] == top);
                            }
                        }
                    }
                    assert(entries_wf(self.undo_stack@)) by {
                        assert forall|i: int| 0 <= i < self.undo_stack@.len() implies entry_wf(
                            #[trigger] self.undo_stack@[i],
                        ) by {
                            assert(self.undo_stack@[i] == old(self).undo_entries()[i]);
                        }
                    }
                }
                Some(inverse)
            },
        }
    }

    /// Pop the most recently undone transaction, move it back to the undo
    /// stack, and return its original edits for the caller to replay. The
    /// captured removed text travels with the transaction and is reused, not
    /// recomputed.
    pub fn redo(&mut self) -> (r: Option<Vec<Edit>>)
        requires
            old(self).wf(),
        ensures
            final(self).wf(),
            old(self).redo_entries().len() == 0 ==> r is None && final(self).undo_entries()
                == old(self).undo_entries() && final(self).redo_entries() == old(self).redo_entries(),
            old(self).redo_entries().len() > 0 ==> r is Some && r->0@ == old(self).redo_entries().last().edits@ && final(self).redo_entries() == old(self).redo_entries().drop_last() && final(self).undo_entries() == old(self).undo_entries().push(old(self).redo_entries().last()),
    {
        match self.redo_stack.pop() {
            None => None,
            Some(top) => {
                proof {
                    assert(top == old(self).redo_entries().last());
                    assert(self.redo_stack@ =~= old(self).redo_entries().drop_last());
                }
                let edits = clone_edits(&top.edits);
                self.undo_stack.push(top);
                proof {
                    assert(entries_wf(self.undo_stack@)) by {
                        assert forall|i: int| 0 <= i < self.undo_stack@.len() implies entry_wf(
                            #[trigger] self.undo_stack@[i],
                        ) by {
                            if i < old(self).undo_stack@.len() {
                                assert(self.undo_stack@[i] == old(self).undo_entries()[i]);
                            } else {
                                assert(self.undo_stack@[i] == top);
                            }
                        }
                    }
                    assert(entries_wf(self.redo_stack@)) by {
                        assert forall|i: int| 0 <= i < self.redo_stack@.len() implies entry_wf(
                            #[trigger] self.redo_stack@[i],
                        ) by {
                            assert(self.redo_stack@[i] == old(self).redo_entries()[i]);
                        }
                    }
                }
                Some(edits)
            },
        }
    }

    pub fn can_undo(&self) -> (r: bool)
        ensures
            r == (self.undo_entries().len() > 0),
    {
        self.undo_stack.len() > 0
    }

    pub fn can_redo(&self) -> (r: bool)
        ensures
            r == (self.redo_entries().len() > 0),
    {
        self.redo_stack.len() > 0
    }

    /// Drop both stacks; the reset for a replaced document.
    pub fn clear(&mut self)
        ensures
            final(self).undo_entries() == Seq::<HistoryEntry>::empty(),
            final(self).redo_entries() == Seq::<HistoryEntry>::empty(),
            final(self).wf(),
    {
        self.undo_stack.clear();
        self.redo_stack.clear();
    }
}

impl Default for History {
    fn default() -> (r: History)
        ensures
            r.undo_entries() == Seq::<HistoryEntry>::empty(),
            r.redo_entries() == Seq::<HistoryEntry>::empty(),
            r.wf(),
    {
        History::new()
    }
}

fn clone_edits(v: &Vec<Edit>) -> (r: Vec<Edit>)
    ensures
        r@ == v@,
{
    let mut r: Vec<Edit> = Vec::new();
    let mut i: usize = 0;
    while i < v.len()
        invariant
            r@.len() == i <= v@.len(),
            forall|k: int| 0 <= k < i ==> r@[k] == v@[k],
        decreases v@.len() - i,
    {
        r.push(v[i].clone());
        i += 1;
    }
    proof {
        assert(r@ =~= v@);
    }
    r
}

/// REDO FIDELITY for the buffer: replaying a transaction right after undoing
/// it restores exactly the text that stood before the undo.
pub proof fn lemma_undo_redo_roundtrip(
    s: Seq<char>,
    edits: Seq<Edit>,
    removed: Seq<String>,
    inv: Seq<Edit>,
)
    requires
        transaction_wf(s, edits),
        sorted_desc(edits),
        removed_matches(s, edits, removed),
        is_inverse_of(inv, edits, removed),
    ensures
        apply_in_order_spec(apply_edits_spec(s, edits), inv) == s,
        apply_edits_spec(apply_in_order_spec(apply_edits_spec(s, edits), inv), edits)
            == apply_edits_spec(s, edits),
{
    crate::edit::lemma_apply_invert(s, edits, removed, inv);
}

} // verus!
