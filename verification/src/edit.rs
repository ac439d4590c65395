//! A single buffer mutation: remove the characters in `[start, end)` and put
//! `text` in their place, both offsets read against the buffer as it stood
//! before the transaction the edit belongs to.
use vstd::prelude::*;

verus! {

#[derive(Debug)]
pub struct Edit {
    pub start: usize,
    pub end: usize,
    pub text: String,
}

impl Clone for Edit {
    fn clone(&self) -> (r: Edit)
        ensures
            r == *self,
    {
        Edit { start: self.start, end: self.end, text: self.text.clone() }
    }
}

impl Edit {
    pub fn insert(position: usize, text: String) -> (r: Edit)
        ensures
            r.start == position,
            r.end == position,
            r.text@ == text@,
    {
        Edit { start: position, end: position, text }
    }

    pub fn delete(start: usize, end: usize) -> (r: Edit)
        ensures
            r.start == start,
            r.end == end,
            r.text@ == Seq::<char>::empty(),
    {
        Edit { start, end, text: String::new() }
    }

    pub fn replace(start: usize, end: usize, text: String) -> (r: Edit)
        ensures
            r.start == start,
            r.end == end,
            r.text@ == text@,
    {
        Edit { start, end, text }
    }

    pub open spec fn spec_is_insert(&self) -> bool {
        self.start == self.end && self.text@.len() > 0
    }

    pub open spec fn spec_is_delete(&self) -> bool {
        self.start != self.end && self.text@.len() == 0
    }

    pub open spec fn spec_is_replace(&self) -> bool {
        self.start != self.end && self.text@.len() > 0
    }

    pub open spec fn spec_is_noop(&self) -> bool {
        self.start == self.end && self.text@.len() == 0
    }

    pub fn is_insert(&self) -> (r: bool)
        ensures
            r == self.spec_is_insert(),
    {
        self.start == self.end && !self.text.as_str().is_empty()
    }

    pub fn is_delete(&self) -> (r: bool)
        ensures
            r == self.spec_is_delete(),
    {
        self.start != self.end && self.text.as_str().is_empty()
    }

    pub fn is_replace(&self) -> (r: bool)
        ensures
            r == self.spec_is_replace(),
    {
        self.start != self.end && !self.text.as_str().is_empty()
    }

    pub fn is_noop(&self) -> (r: bool)
        ensures
            r == self.spec_is_noop(),
    {
        self.start == self.end && self.text.as_str().is_empty()
    }

    /// Offset the edit acts at.
    pub fn position(&self) -> (r: usize)
        ensures
            r == self.start,
    {
        self.start
    }

    /// The text the edit puts in place of the removed range.
    pub fn inserted(&self) -> (r: &str)
        ensures
            r@ == self.text@,
    {
        self.text.as_str()
    }
}

/// The edit's offsets fit the text `s`.
pub open spec fn edit_in_bounds(s: Seq<char>, e: Edit) -> bool {
    e.start <= e.end <= s.len()
}

/// The text after applying one edit to `s`.
pub open spec fn apply_edit_spec(s: Seq<char>, e: Edit) -> Seq<char> {
    s.take(e.start as int) + e.text@ + s.skip(e.end as int)
}

/// Index of the first edit with the greatest `start`, scanning from `k` with
/// `best` the best index seen so far.
pub open spec fn argmax_start_from(edits: Seq<Edit>, k: int, best: int) -> int
    decreases edits.len() - k,
{
    if k < 0 || k >= edits.len() {
        best
    } else if 0 <= best < edits.len() && edits[k].start > edits[best].start {
        argmax_start_from(edits, k + 1, k)
    } else {
        argmax_start_from(edits, k + 1, best)
    }
}

/// Index of the first edit with the greatest `start`.
pub open spec fn max_start_index(edits: Seq<Edit>) -> int {
    argmax_start_from(edits, 1, 0)
}

pub proof fn lemma_argmax_start_from(edits: Seq<Edit>, k: int, best: int)
    requires
        0 <= best < edits.len(),
        best <= k,
    ensures
        0 <= argmax_start_from(edits, k, best) < edits.len(),
        edits[argmax_start_from(edits, k, best)].start >= edits[best].start,
        forall|j: int|
            k <= j < edits.len() ==> (#[trigger] edits[j]).start <= edits[argmax_start_from(
                edits,
                k,
                best,
            )].start,
    decreases edits.len() - k,
{
    if 0 <= k < edits.len() {
        if edits[k].start > edits[best].start {
            lemma_argmax_start_from(edits, k + 1, k);
        } else {
            lemma_argmax_start_from(edits, k + 1, best);
        }
    }
}

pub proof fn lemma_max_start_index(edits: Seq<Edit>)
    requires
        edits.len() > 0,
    ensures
        0 <= max_start_index(edits) < edits.len(),
        forall|j: int|
            0 <= j < edits.len() ==> (#[trigger] edits[j]).start <= edits[max_start_index(
                edits,
            )].start,
{
    lemma_argmax_start_from(edits, 1, 0);
}

/// The text after applying a whole transaction to `s`: edits are applied in
/// descending order of `start`, so that each offset is still read against the
/// original text when its edit's turn comes.
pub open spec fn apply_edits_spec(s: Seq<char>, edits: Seq<Edit>) -> Seq<char>
    decreases edits.len(),
{
    if edits.len() == 0 {
        s
    } else {
        let i = max_start_index(edits);
        if 0 <= i < edits.len() {
            apply_edits_spec(apply_edit_spec(s, edits[i]), edits.remove(i))
        } else {
            s
        }
    }
}

/// The text after applying edits one at a time, in the order given, each
/// against the text left by the previous one.
pub open spec fn apply_in_order_spec(s: Seq<char>, edits: Seq<Edit>) -> Seq<char>
    decreases edits.len(),
{
    if edits.len() == 0 {
        s
    } else {
        apply_in_order_spec(apply_edit_spec(s, edits[0]), edits.drop_first())
    }
}

/// Each edit is in bounds at the moment it is applied, in the order given.
pub open spec fn edits_applicable(s: Seq<char>, edits: Seq<Edit>) -> bool
    decreases edits.len(),
{
    edits.len() == 0 || (edit_in_bounds(s, edits[0]) && edits_applicable(
        apply_edit_spec(s, edits[0]),
        edits.drop_first(),
    ))
}

/// A well-formed transaction against text `s`: every edit in bounds, starts
/// pairwise distinct, and ranges pairwise disjoint. Overlapping edits within
/// one transaction are a caller error, so they are excluded here.
pub open spec fn transaction_wf(s: Seq<char>, edits: Seq<Edit>) -> bool {
    &&& forall|i: int| 0 <= i < edits.len() ==> edit_in_bounds(s, #[trigger] edits[i])
    &&& forall|i: int, j: int|
        0 <= i < j < edits.len() ==> #[trigger] edits[i].start != #[trigger] edits[j].start
    &&& forall|i: int, j: int|
        0 <= i < j < edits.len() ==> edits[i].end <= edits[j].start || edits[j].end
            <= edits[i].start
}

/// The edits are listed in strictly descending order of `start`.
pub open spec fn sorted_desc(edits: Seq<Edit>) -> bool {
    forall|i: int, j: int| 0 <= i < j < edits.len() ==> edits[i].start > edits[j].start
}

/// `removed` holds, edit by edit, the text each edit removes from `s`.
pub open spec fn removed_matches(s: Seq<char>, edits: Seq<Edit>, removed: Seq<String>) -> bool {
    removed.len() == edits.len() && forall|i: int|
        0 <= i < edits.len() ==> (#[trigger] removed[i])@ == s.subrange(
            edits[i].start as int,
            edits[i].end as int,
        )
}

/// The inverse of one recorded edit: an insertion becomes the deletion of the
/// inserted span, a deletion becomes the insertion of the removed text, a
/// replacement swaps the two, and a noop stays a noop. The one uniform rule
/// covers all four: remove what the edit put in, put back what it removed.
pub open spec fn inverse_matches(v: Edit, e: Edit, removed: Seq<char>) -> bool {
    v.start == e.start && v.end == e.start + e.text@.len() && v.text@ == removed
}

/// `inv` lists the inverses of the recorded edits in reverse order, so that
/// the edit applied last is un-applied first.
pub open spec fn is_inverse_of(inv: Seq<Edit>, edits: Seq<Edit>, removed: Seq<String>) -> bool {
    &&& inv.len() == edits.len()
    &&& removed.len() == edits.len()
    &&& forall|i: int|
        0 <= i < inv.len() ==> inverse_matches(
            #[trigger] inv[i],
            edits[edits.len() - 1 - i],
            removed[edits.len() - 1 - i]@,
        )
}

/// In a descending transaction the first edit is the one applied first.
pub proof fn lemma_desc_head_max(edits: Seq<Edit>)
    requires
        edits.len() > 0,
        sorted_desc(edits),
    ensures
        max_start_index(edits) == 0,
{
    lemma_max_start_index(edits);
    let mi = max_start_index(edits);
    if mi != 0 {
        assert(edits[0].start > edits[mi].start);
        assert(edits[mi].start >= edits[0].start);
    }
}

/// Applying the first edit of a descending transaction leaves a well-formed
/// descending transaction over the new text, lying entirely below the
/// applied edit's start.
pub proof fn lemma_wf_tail(s: Seq<char>, edits: Seq<Edit>)
    requires
        edits.len() > 0,
        transaction_wf(s, edits),
        sorted_desc(edits),
    ensures
        transaction_wf(apply_edit_spec(s, edits[0]), edits.drop_first()),
        sorted_desc(edits.drop_first()),
        forall|j: int|
            0 <= j < edits.drop_first().len() ==> (#[trigger] edits.drop_first()[j]).end
                <= edits[0].start,
{
    let e0 = edits[0];
    let rest = edits.drop_first();
    let s1 = apply_edit_spec(s, e0);
    assert(s1.len() == e0.start + e0.text@.len() + (s.len() - e0.end));
    assert forall|j: int| 0 <= j < rest.len() implies (#[trigger] rest[j]).end
        <= e0.start as int by {
        assert(rest[j] == edits[j + 1]);
        assert(edits[j + 1].start < e0.start);
        assert(e0.end <= edits[j + 1].start || edits[j + 1].end <= e0.start);
    }
    assert forall|j: int| 0 <= j < rest.len() implies edit_in_bounds(s1, #[trigger] rest[j]) by {
        assert(rest[j].end <= e0.start);
    }
    assert forall|i: int, j: int| 0 <= i < j < rest.len() implies (#[trigger] rest[i]).start != (
    #[trigger] rest[j]).start && (rest[i].end <= rest[j].start || rest[j].end <= rest[i].start) by {
        assert(rest[i] == edits[i + 1] && rest[j] == edits[j + 1]);
    }
}

/// For a well-formed descending transaction, the canonical application and
/// the in-order application coincide, and every edit is in bounds when its
/// turn comes.
pub proof fn lemma_desc_apply_in_order(s: Seq<char>, edits: Seq<Edit>)
    requires
        transaction_wf(s, edits),
        sorted_desc(edits),
    ensures
        apply_edits_spec(s, edits) == apply_in_order_spec(s, edits),
        edits_applicable(s, edits),
    decreases edits.len(),
{
    if edits.len() > 0 {
        lemma_desc_head_max(edits);
        assert(edits.remove(0) =~= edits.drop_first());
        lemma_wf_tail(s, edits);
        lemma_desc_apply_in_order(apply_edit_spec(s, edits[0]), edits.drop_first());
    }
}

/// In-order application peels its last edit off the back.
pub proof fn lemma_apply_in_order_snoc(s: Seq<char>, edits: Seq<Edit>, e: Edit)
    ensures
        apply_in_order_spec(s, edits.push(e)) == apply_edit_spec(apply_in_order_spec(s, edits), e),
    decreases edits.len(),
{
    if edits.len() == 0 {
        assert(edits.push(e).drop_first() =~= Seq::<Edit>::empty());
        assert(edits.push(e)[0] == e);
        assert(apply_in_order_spec(s, edits) == s);
        assert(apply_in_order_spec(s, edits.push(e)) == apply_in_order_spec(
            apply_edit_spec(s, e),
            Seq::<Edit>::empty(),
        ));
        assert(apply_in_order_spec(apply_edit_spec(s, e), Seq::<Edit>::empty()) == apply_edit_spec(
            s,
            e,
        ));
    } else {
        assert(edits.push(e)[0] == edits[0]);
        assert(edits.push(e).drop_first() =~= edits.drop_first().push(e));
        lemma_apply_in_order_snoc(apply_edit_spec(s, edits[0]), edits.drop_first(), e);
        assert(apply_in_order_spec(s, edits.push(e)) == apply_in_order_spec(
            apply_edit_spec(s, edits[0]),
            edits.drop_first().push(e),
        ));
        assert(apply_in_order_spec(s, edits) == apply_in_order_spec(
            apply_edit_spec(s, edits[0]),
            edits.drop_first(),
        ));
    }
}

/// Edits that all act at or above `m` leave the prefix below `m` alone.
pub proof fn lemma_apply_prefix(s: Seq<char>, edits: Seq<Edit>, m: int)
    requires
        edits_applicable(s, edits),
        0 <= m <= s.len(),
        forall|i: int| 0 <= i < edits.len() ==> m <= (#[trigger] edits[i]).start,
    ensures
        apply_in_order_spec(s, edits).len() >= m,
        apply_in_order_spec(s, edits).take(m) == s.take(m),
    decreases edits.len(),
{
    if edits.len() == 0 {
        assert(apply_in_order_spec(s, edits).take(m) =~= s.take(m));
    } else {
        let e0 = edits[0];
        let s1 = apply_edit_spec(s, e0);
        assert(s1.take(m) =~= s.take(m));
        assert(forall|i: int|
            0 <= i < edits.drop_first().len() ==> m <= (#[trigger] edits.drop_first()[i]).start);
        lemma_apply_prefix(s1, edits.drop_first(), m);
    }
}

/// The text with one recorded edit un-applied: the span its text occupies is
/// replaced by the text it removed.
pub open spec fn unapply_edit(s: Seq<char>, e: Edit, removed: Seq<char>) -> Seq<char> {
    s.take(e.start as int) + removed + s.skip(e.start + e.text@.len())
}

/// The text with a whole recorded transaction un-applied: entries processed
/// in reverse order, so the edit applied last is un-applied first.
pub open spec fn unapply_from(s: Seq<char>, edits: Seq<Edit>, removed: Seq<String>) -> Seq<char>
    decreases edits.len(),
{
    if edits.len() == 0 {
        s
    } else {
        unapply_from(
            unapply_edit(s, edits.last(), removed[edits.len() - 1]@),
            edits.drop_last(),
            removed.take(edits.len() - 1),
        )
    }
}

/// Un-applying a transaction right after applying it restores the original
/// text exactly.
pub proof fn lemma_unapply_restores(s: Seq<char>, edits: Seq<Edit>, removed: Seq<String>)
    requires
        transaction_wf(s, edits),
        sorted_desc(edits),
        removed_matches(s, edits, removed),
    ensures
        unapply_from(apply_edits_spec(s, edits), edits, removed) == s,
    decreases edits.len(),
{
    let n = edits.len() as int;
    if n > 0 {
        let e = edits.last();
        let rest = edits.drop_last();
        let big = apply_edits_spec(s, edits);
        let mid = apply_edits_spec(s, rest);
        assert(forall|i: int| 0 <= i < rest.len() ==> rest[i] == edits[i]);
        assert(transaction_wf(s, rest) && sorted_desc(rest));
        lemma_desc_apply_in_order(s, edits);
        lemma_desc_apply_in_order(s, rest);
        assert(rest.push(e) =~= edits);
        lemma_apply_in_order_snoc(s, rest, e);
        assert(big == apply_edit_spec(mid, e));
        assert forall|i: int| 0 <= i < rest.len() implies e.end as int <= (
        #[trigger] rest[i]).start by {
            assert(rest[i] == edits[i]);
            assert(edits[i].start > e.start);
            assert(edits[i].end <= e.start || e.end <= edits[i].start);
            assert(edits[i].end >= edits[i].start);
        }
        lemma_apply_prefix(s, rest, e.end as int);
        assert(mid.take(e.end as int) == s.take(e.end as int));
        let back = unapply_edit(big, e, removed[n - 1]@);
        assert(back =~= mid) by {
            assert(big.len() == e.start + e.text@.len() + (mid.len() - e.end));
            assert(big.take(e.start as int) =~= mid.take(e.start as int)) by {
                assert(forall|j: int| 0 <= j < e.start ==> big[j] == mid.take(e.start as int)[j]);
            }
            assert(big.skip(e.start + e.text@.len()) =~= mid.skip(e.end as int));
            assert(removed[n - 1]@ =~= mid.subrange(e.start as int, e.end as int)) by {
                assert(removed[n - 1]@ == s.subrange(e.start as int, e.end as int));
                assert forall|j: int| 0 <= j < e.end - e.start implies s.subrange(
                    e.start as int,
                    e.end as int,
                )[j] == mid.subrange(e.start as int, e.end as int)[j] by {
                    assert(s.take(e.end as int)[e.start + j] == mid.take(e.end as int)[e.start
                        + j]);
                }
            }
        }
        assert(removed_matches(s, rest, removed.take(n - 1)));
        lemma_unapply_restores(s, rest, removed.take(n - 1));
        assert(unapply_from(big, edits, removed) == unapply_from(
            back,
            rest,
            removed.take(n - 1),
        ));
        assert(unapply_from(back, rest, removed.take(n - 1)) == unapply_from(
            mid,
            rest,
            removed.take(n - 1),
        ));
    }
}

/// After a descending transaction, the last edit's inserted text still sits
/// at its own offset, so the text reaches past it.
pub proof fn lemma_apply_desc_last_bound(s: Seq<char>, edits: Seq<Edit>)
    requires
        transaction_wf(s, edits),
        sorted_desc(edits),
        edits.len() > 0,
    ensures
        apply_edits_spec(s, edits).len() >= edits.last().start + edits.last().text@.len(),
{
    let e = edits.last();
    let rest = edits.drop_last();
    let mid = apply_edits_spec(s, rest);
    assert(forall|i: int| 0 <= i < rest.len() ==> rest[i] == edits[i]);
    assert(transaction_wf(s, rest) && sorted_desc(rest));
    lemma_desc_apply_in_order(s, edits);
    lemma_desc_apply_in_order(s, rest);
    assert(rest.push(e) =~= edits);
    lemma_apply_in_order_snoc(s, rest, e);
    assert forall|i: int| 0 <= i < rest.len() implies e.end as int <= (#[trigger] rest[i]).start by {
        assert(rest[i] == edits[i]);
        assert(edits[i].start > e.start);
        assert(edits[i].end <= e.start || e.end <= edits[i].start);
        assert(edits[i].end >= edits[i].start);
    }
    lemma_apply_prefix(s, rest, e.end as int);
    assert(apply_edits_spec(s, edits).len() == e.start + e.text@.len() + (mid.len() - e.end));
}

/// INVERTIBILITY. Applying a transaction and then its inverse — the inverses
/// of its edits, each built with the text the edit removed, listed in reverse
/// and applied in that order — restores the original text exactly. The
/// transaction's edits must be well formed (in bounds, pairwise disjoint,
/// distinct starts) and listed in descending order of `start`.
pub proof fn lemma_apply_invert(s: Seq<char>, edits: Seq<Edit>, removed: Seq<String>, inv: Seq<Edit>)
    requires
        transaction_wf(s, edits),
        sorted_desc(edits),
        removed_matches(s, edits, removed),
        is_inverse_of(inv, edits, removed),
    ensures
        edits_applicable(apply_edits_spec(s, edits), inv),
        apply_in_order_spec(apply_edits_spec(s, edits), inv) == s,
    decreases edits.len(),
{
    let n = edits.len() as int;
    if n == 0 {
        assert(apply_edits_spec(s, edits) == s);
    } else {
        let e = edits.last();
        let rest = edits.drop_last();
        let big = apply_edits_spec(s, edits);
        let mid = apply_edits_spec(s, rest);
        // rest is itself a well-formed descending transaction over s
        assert(forall|i: int| 0 <= i < rest.len() ==> rest[i] == edits[i]);
        assert(transaction_wf(s, rest) && sorted_desc(rest));
        lemma_desc_apply_in_order(s, edits);
        lemma_desc_apply_in_order(s, rest);
        assert(rest.push(e) =~= edits);
        lemma_apply_in_order_snoc(s, rest, e);
        assert(big == apply_edit_spec(mid, e));
        // every edit of rest starts at or above e.end, so mid keeps the
        // prefix below e.end
        assert forall|i: int| 0 <= i < rest.len() implies e.end as int <= (
        #[trigger] rest[i]).start by {
            assert(rest[i] == edits[i]);
            assert(edits[i].start > e.start);
            assert(edits[i].end <= e.start || e.end <= edits[i].start);
            assert(edits[i].end >= edits[i].start);
        }
        lemma_apply_prefix(s, rest, e.end as int);
        assert(mid.take(e.end as int) == s.take(e.end as int));
        // un-applying e from big yields mid
        let v = inv[0];
        assert(inverse_matches(v, e, removed[n - 1]@));
        assert(edit_in_bounds(big, v)) by {
            assert(big.len() == e.start + e.text@.len() + (mid.len() - e.end));
        }
        let back = apply_edit_spec(big, v);
        assert(back =~= mid) by {
            assert(big.take(e.start as int) =~= mid.take(e.start as int)) by {
                assert(forall|j: int|
                    0 <= j < e.start ==> big[j] == mid.take(e.start as int)[j]);
            }
            assert(big.skip(e.start + e.text@.len()) =~= mid.skip(e.end as int));
            assert(v.text@ =~= mid.subrange(e.start as int, e.end as int)) by {
                assert(removed[n - 1]@ == s.subrange(e.start as int, e.end as int));
                assert forall|j: int| 0 <= j < e.end - e.start implies s.subrange(
                    e.start as int,
                    e.end as int,
                )[j] == mid.subrange(e.start as int, e.end as int)[j] by {
                    assert(s.take(e.end as int)[e.start + j] == mid.take(e.end as int)[e.start
                        + j]);
                }
            }
        }
        // the remaining inverses undo rest
        let inv_rest = inv.drop_first();
        let removed_rest = removed.drop_last();
        assert(is_inverse_of(inv_rest, rest, removed_rest)) by {
            assert forall|i: int| 0 <= i < inv_rest.len() implies inverse_matches(
                #[trigger] inv_rest[i],
                rest[rest.len() - 1 - i],
                removed_rest[rest.len() - 1 - i]@,
            ) by {
                assert(inv_rest[i] == inv[i + 1]);
                assert(rest[rest.len() - 1 - i] == edits[n - 1 - (i + 1)]);
                assert(removed_rest[rest.len() - 1 - i]@ == removed[n - 1 - (i + 1)]@);
            }
        }
        assert(removed_matches(s, rest, removed_rest));
        lemma_apply_invert(s, rest, removed_rest, inv_rest);
        assert(apply_in_order_spec(big, inv) == apply_in_order_spec(back, inv_rest));
    }
}

} // verus!
