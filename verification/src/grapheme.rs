//! Extended grapheme cluster boundaries, the minimal atomic movement unit.
//! The segmentation itself comes from the unicode-segmentation crate and is
//! named by `graphemes_of`; boundary positions are the prefix sums of the
//! cluster lengths, and the search for the nearest boundary is verified
//! against them.
use vstd::prelude::*;

use unicode_segmentation::UnicodeSegmentation;

use vstd::string::StrSliceExecFns;

use crate::navigator::TextNavigator;

verus! {

/// The extended grapheme clusters of a text, in order, as
/// unicode-segmentation's grapheme iterator yields them.
pub uninterp spec fn graphemes_of(s: Seq<char>) -> Seq<Seq<char>>;

/// Relies on UnicodeSegmentation::graphemes (extended clusters): the
/// concatenation of the clusters is the original text, and no cluster is
/// empty.
#[verifier::external_body]
fn grapheme_split(s: &str) -> (r: Vec<String>)
    ensures
        r@.map_values(|g: String| g@) == graphemes_of(s@),
        r@.map_values(|g: String| g@).flatten() == s@,
        forall|i: int| 0 <= i < r@.len() ==> (#[trigger] r@[i])@.len() >= 1,
{
    s.graphemes(true).map(|g| g.to_string()).collect()
}

/// Number of characters in the first `k` clusters: the `k`-th cluster
/// boundary.
pub open spec fn gb_prefix(gs: Seq<Seq<char>>, k: int) -> int
    decreases k,
{
    if k <= 0 {
        0
    } else {
        gb_prefix(gs, k - 1) + gs[k - 1].len()
    }
}

/// Whether `p` lies on a grapheme cluster boundary of `s` (0 and the length
/// of `s` always do).
pub open spec fn grapheme_boundary(s: Seq<char>, p: int) -> bool {
    exists|k: int|
        0 <= k <= graphemes_of(s).len() && p == gb_prefix(#[trigger] graphemes_of(s), k)
}

/// `r` is the nearest boundary strictly before `pos`, or 0 at the start.
pub open spec fn is_prev_grapheme(s: Seq<char>, pos: int, r: int) -> bool {
    if pos <= 0 {
        r == 0
    } else {
        grapheme_boundary(s, r) && r < pos && (forall|b: int|
            grapheme_boundary(s, b) && b < pos ==> b <= r)
    }
}

/// `r` is the nearest boundary strictly after `pos`, or the end at the end.
pub open spec fn is_next_grapheme(s: Seq<char>, pos: int, r: int) -> bool {
    if pos >= s.len() {
        r == s.len()
    } else {
        grapheme_boundary(s, r) && r > pos && (forall|b: int|
            grapheme_boundary(s, b) && b > pos ==> b >= r)
    }
}

pub proof fn lemma_gb_prefix_mono(gs: Seq<Seq<char>>, k1: int, k2: int)
    requires
        0 <= k1 <= k2,
    ensures
        gb_prefix(gs, k1) <= gb_prefix(gs, k2),
    decreases k2 - k1,
{
    if k1 < k2 {
        lemma_gb_prefix_mono(gs, k1, k2 - 1);
    }
}

proof fn lemma_gb_prefix_shift(gs: Seq<Seq<char>>, k: int)
    requires
        1 <= k <= gs.len(),
    ensures
        gb_prefix(gs, k) == gs[0].len() + gb_prefix(gs.drop_first(), k - 1),
    decreases k,
{
    if k == 1 {
        assert(gb_prefix(gs, 0) == 0);
        assert(gb_prefix(gs.drop_first(), 0) == 0);
    } else {
        lemma_gb_prefix_shift(gs, k - 1);
        assert(gs.drop_first()[k - 2] == gs[k - 1]);
        assert(gb_prefix(gs.drop_first(), k - 1) == gb_prefix(gs.drop_first(), k - 2)
            + gs.drop_first()[k - 2].len());
    }
}

/// The last boundary is the length of the text.
pub proof fn lemma_gb_prefix_total(gs: Seq<Seq<char>>)
    ensures
        gb_prefix(gs, gs.len() as int) == gs.flatten().len(),
    decreases gs.len(),
{
    if gs.len() > 0 {
        lemma_gb_prefix_shift(gs, gs.len() as int);
        lemma_gb_prefix_total(gs.drop_first());
    }
}

/// Finds the previous grapheme cluster boundary before `char_idx`.
pub fn prev_grapheme_boundary(s: &str, char_idx: usize) -> (r: usize)
    requires
        char_idx <= s@.len(),
    ensures
        is_prev_grapheme(s@, char_idx as int, r as int),
        r <= char_idx,
{
    let ghost t = s@;
    let ghost gseq = graphemes_of(t);
    if char_idx == 0 {
        return 0;
    }
    let total = s.unicode_len();
    let gs = grapheme_split(s);
    proof {
        assert(gseq.flatten() == t);
        assert forall|i: int| 0 <= i < gseq.len() implies (#[trigger] gseq[i]).len() >= 1 by {
            assert(gseq[i] == gs@[i]@);
        }
        lemma_gb_prefix_total(gseq);
    }
    let mut k: usize = 0;
    let mut sum: usize = 0;
    while k < gs.len()
        invariant
            gs@.map_values(|g: String| g@) == gseq,
            k <= gseq.len(),
            sum == gb_prefix(gseq, k as int),
            sum < char_idx <= total,
            total == t.len(),
            gb_prefix(gseq, gseq.len() as int) == t.len(),
            forall|i: int| 0 <= i < gseq.len() ==> (#[trigger] gseq[i]).len() >= 1,
        decreases gs@.len() - k,
    {
        proof {
            assert(gs@[k as int]@ == gseq[k as int]);
            lemma_gb_prefix_mono(gseq, k as int + 1, gseq.len() as int);
        }
        let glen = gs[k].as_str().unicode_len();
        let next = sum + glen;
        if next >= char_idx {
            proof {
                assert(grapheme_boundary(t, sum as int));
                assert forall|b: int| grapheme_boundary(t, b) && b < char_idx implies b
                    <= sum as int by {
                    let j = choose|j: int|
                        0 <= j <= gseq.len() && b == gb_prefix(#[trigger] graphemes_of(t), j);
                    if j > k as int {
                        lemma_gb_prefix_mono(gseq, k as int + 1, j);
                    } else {
                        lemma_gb_prefix_mono(gseq, j, k as int);
                    }
                }
            }
            return sum;
        }
        sum = next;
        k += 1;
    }
    proof {
        assert(sum == t.len());
        assert(false);
    }
    0
}

/// Finds the next grapheme cluster boundary after `char_idx`.
pub fn next_grapheme_boundary(s: &str, char_idx: usize) -> (r: usize)
    requires
        char_idx <= s@.len(),
    ensures
        is_next_grapheme(s@, char_idx as int, r as int),
        char_idx <= r <= s@.len(),
{
    let ghost t = s@;
    let ghost gseq = graphemes_of(t);
    let total = s.unicode_len();
    if char_idx >= total {
        return total;
    }
    let gs = grapheme_split(s);
    proof {
        assert(gseq.flatten() == t);
        assert forall|i: int| 0 <= i < gseq.len() implies (#[trigger] gseq[i]).len() >= 1 by {
            assert(gseq[i] == gs@[i]@);
        }
        lemma_gb_prefix_total(gseq);
    }
    let mut k: usize = 0;
    let mut sum: usize = 0;
    while k < gs.len()
        invariant
            gs@.map_values(|g: String| g@) == gseq,
            k <= gseq.len(),
            sum == gb_prefix(gseq, k as int),
            sum <= char_idx < total,
            total == t.len(),
            gb_prefix(gseq, gseq.len() as int) == t.len(),
            forall|i: int| 0 <= i < gseq.len() ==> (#[trigger] gseq[i]).len() >= 1,
        decreases gs@.len() - k,
    {
        proof {
            assert(gs@[k as int]@ == gseq[k as int]);
            lemma_gb_prefix_mono(gseq, k as int + 1, gseq.len() as int);
        }
        let glen = gs[k].as_str().unicode_len();
        let next = sum + glen;
        if next > char_idx {
            proof {
                assert(next == gb_prefix(gseq, k as int + 1));
                assert(grapheme_boundary(t, next as int));
                assert forall|b: int| grapheme_boundary(t, b) && b > char_idx implies b
                    >= next as int by {
                    let j = choose|j: int|
                        0 <= j <= gseq.len() && b == gb_prefix(#[trigger] graphemes_of(t), j);
                    if j <= k as int {
                        lemma_gb_prefix_mono(gseq, j, k as int);
                    } else {
                        lemma_gb_prefix_mono(gseq, k as int + 1, j);
                    }
                }
            }
            return next;
        }
        sum = next;
        k += 1;
    }
    proof {
        assert(sum == t.len());
        assert(false);
    }
    total
}

/// Whether `char_idx` lies on a grapheme cluster boundary.
pub fn is_grapheme_boundary(s: &str, char_idx: usize) -> (r: bool)
    requires
        char_idx <= s@.len(),
    ensures
        r == grapheme_boundary(s@, char_idx as int),
{
    let ghost t = s@;
    let ghost gseq = graphemes_of(t);
    let total = s.unicode_len();
    let gs = grapheme_split(s);
    proof {
        assert(gseq.flatten() == t);
        assert forall|i: int| 0 <= i < gseq.len() implies (#[trigger] gseq[i]).len() >= 1 by {
            assert(gseq[i] == gs@[i]@);
        }
        lemma_gb_prefix_total(gseq);
    }
    let mut k: usize = 0;
    let mut sum: usize = 0;
    while k < gs.len()
        invariant
            gs@.map_values(|g: String| g@) == gseq,
            k <= gseq.len(),
            sum == gb_prefix(gseq, k as int),
            forall|j: int| 0 <= j < k ==> gb_prefix(gseq, j) < char_idx,
            total == t.len(),
            gb_prefix(gseq, gseq.len() as int) == t.len(),
            forall|i: int| 0 <= i < gseq.len() ==> (#[trigger] gseq[i]).len() >= 1,
        decreases gs@.len() - k,
    {
        if sum == char_idx {
            proof {
                assert(grapheme_boundary(t, char_idx as int));
            }
            return true;
        }
        if sum > char_idx {
            proof {
                assert forall|j: int|
                    0 <= j <= gseq.len() implies gb_prefix(gseq, j) != char_idx as int by {
                    if j >= k as int {
                        lemma_gb_prefix_mono(gseq, k as int, j);
                    }
                }
            }
            return false;
        }
        proof {
            assert(gs@[k as int]@ == gseq[k as int]);
        }
        let glen = gs[k].as_str().unicode_len();
        proof {
            lemma_gb_prefix_mono(gseq, k as int + 1, gseq.len() as int);
            assert(gb_prefix(gseq, k as int + 1) <= t.len());
        }
        sum = sum + glen;
        k += 1;
    }
    if sum == char_idx {
        proof {
            assert(grapheme_boundary(t, char_idx as int));
        }
        true
    } else {
        proof {
            assert forall|j: int|
                0 <= j <= gseq.len() implies gb_prefix(gseq, j) != char_idx as int by {
                if j >= k as int {
                    lemma_gb_prefix_mono(gseq, k as int, j);
                    lemma_gb_prefix_mono(gseq, j, gseq.len() as int);
                }
            }
        }
        false
    }
}

/// Previous grapheme cluster boundary in a navigator's text.
pub fn prev_grapheme_char_index<N: TextNavigator>(nav: &N, char_idx: usize) -> (r: usize)
    requires
        char_idx <= nav.text().len(),
    ensures
        is_prev_grapheme(nav.text(), char_idx as int, r as int),
        r <= char_idx,
{
    let len = nav.len_chars();
    let s = nav.slice_to_string(0, len);
    proof {
        assert(s@ =~= nav.text());
    }
    prev_grapheme_boundary(s.as_str(), char_idx)
}

/// Next grapheme cluster boundary in a navigator's text.
pub fn next_grapheme_char_index<N: TextNavigator>(nav: &N, char_idx: usize) -> (r: usize)
    requires
        char_idx <= nav.text().len(),
    ensures
        is_next_grapheme(nav.text(), char_idx as int, r as int),
        char_idx <= r <= nav.text().len(),
{
    let len = nav.len_chars();
    let s = nav.slice_to_string(0, len);
    proof {
        assert(s@ =~= nav.text());
    }
    next_grapheme_boundary(s.as_str(), char_idx)
}

} // verus!
