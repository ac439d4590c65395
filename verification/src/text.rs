//! The mathematical model of buffer text: a sequence of characters, with
//! lines delimited by `'\n'`. Line indices, line starts and line ends are
//! defined here as spec functions, together with the lemmas that relate them.
use vstd::prelude::*;

verus! {

/// Number of line breaks in `s` strictly before position `pos`; this is the
/// index of the line that the character at `pos` belongs to (a `'\n'` belongs
/// to the line it terminates).
pub open spec fn line_index_at(s: Seq<char>, pos: int) -> int
    decreases pos,
{
    if pos <= 0 {
        0
    } else {
        line_index_at(s, pos - 1) + if s[pos - 1] == '\n' {
            1int
        } else {
            0int
        }
    }
}

/// Total number of lines: one more than the number of line breaks.
pub open spec fn num_lines(s: Seq<char>) -> int {
    line_index_at(s, s.len() as int) + 1
}

/// Scan forward from `p`, consuming `l` line breaks; yields the start of the
/// `l`-th line after `p` when `p` is itself a line start.
pub open spec fn line_start_from(s: Seq<char>, p: int, l: int) -> int
    decreases s.len() - p,
{
    if l <= 0 || p < 0 || p >= s.len() {
        p
    } else if s[p] == '\n' {
        line_start_from(s, p + 1, l - 1)
    } else {
        line_start_from(s, p + 1, l)
    }
}

/// Offset of the first character of line `l`.
pub open spec fn line_start(s: Seq<char>, l: int) -> int {
    line_start_from(s, 0, l)
}

/// One past the last character of line `l`: the start of the next line, or
/// the end of the text on the final line. A line thus includes its
/// terminating line break, except the final line, which has none.
pub open spec fn line_end(s: Seq<char>, l: int) -> int {
    if l + 1 < num_lines(s) {
        line_start(s, l + 1)
    } else {
        s.len() as int
    }
}

pub proof fn lemma_line_index_at_nonneg(s: Seq<char>, pos: int)
    ensures
        0 <= line_index_at(s, pos),
        pos >= 0 ==> line_index_at(s, pos) <= pos,
    decreases pos,
{
    if pos > 0 {
        lemma_line_index_at_nonneg(s, pos - 1);
    }
}

pub proof fn lemma_line_index_at_mono(s: Seq<char>, p1: int, p2: int)
    requires
        p1 <= p2,
    ensures
        line_index_at(s, p1) <= line_index_at(s, p2),
        line_index_at(s, p2) - line_index_at(s, p1) <= p2 - p1,
    decreases p2 - p1,
{
    if p1 < p2 {
        lemma_line_index_at_mono(s, p1, p2 - 1);
    }
}

/// Core facts about `line_start_from`: scanning from a line start `p` with
/// `l` breaks to consume lands on a position whose line index is exactly
/// `l` lines further, which follows a line break (unless it is `p` itself),
/// and which does not pass the end of the text.
proof fn lemma_line_start_from(s: Seq<char>, p: int, l: int)
    requires
        0 <= p <= s.len(),
        0 <= l,
        line_index_at(s, p) + l < num_lines(s),
    ensures
        p <= line_start_from(s, p, l) <= s.len(),
        line_index_at(s, line_start_from(s, p, l)) == line_index_at(s, p) + l,
        l > 0 ==> line_start_from(s, p, l) > 0 && s[line_start_from(s, p, l) - 1] == '\n',
    decreases s.len() - p,
{
    if l <= 0 || p >= s.len() {
        if l > 0 && p >= s.len() {
            // impossible: there would have to be l more breaks past the end
            lemma_line_index_at_mono(s, p, s.len() as int);
            assert(line_index_at(s, p) == line_index_at(s, s.len() as int));
        }
    } else if s[p] == '\n' {
        assert(line_index_at(s, p + 1) == line_index_at(s, p) + 1);
        lemma_line_start_from(s, p + 1, l - 1);
        if l == 1 {
        }
    } else {
        assert(line_index_at(s, p + 1) == line_index_at(s, p));
        lemma_line_start_from(s, p + 1, l);
    }
}

pub proof fn lemma_line_start(s: Seq<char>, l: int)
    requires
        0 <= l < num_lines(s),
    ensures
        0 <= line_start(s, l) <= s.len(),
        line_index_at(s, line_start(s, l)) == l,
        l > 0 ==> line_start(s, l) > 0 && s[line_start(s, l) - 1] == '\n',
    decreases l,
{
    lemma_line_start_from(s, 0, l);
}

/// A position's line start is at or before it.
pub proof fn lemma_line_start_le(s: Seq<char>, q: int)
    requires
        0 <= q <= s.len(),
    ensures
        line_start(s, line_index_at(s, q)) <= q,
{
    lemma_line_index_at_nonneg(s, q);
    lemma_line_index_at_mono(s, q, s.len() as int);
    let l = line_index_at(s, q);
    lemma_line_start(s, l);
    let ls = line_start(s, l);
    if ls > q {
        // the break just before ls would lie in [q, ls), contradicting counts
        lemma_line_index_at_mono(s, q, ls - 1);
        assert(line_index_at(s, ls) == line_index_at(s, ls - 1) + 1);
    }
}

/// Line starts are strictly increasing.
pub proof fn lemma_line_start_increasing(s: Seq<char>, l: int)
    requires
        0 <= l,
        l + 1 < num_lines(s),
    ensures
        line_start(s, l) < line_start(s, l + 1),
{
    lemma_line_start(s, l);
    lemma_line_start(s, l + 1);
    if line_start(s, l + 1) <= line_start(s, l) {
        lemma_line_index_at_mono(s, line_start(s, l + 1), line_start(s, l));
    }
}

/// Line starts are strictly increasing across any two lines.
pub proof fn lemma_line_start_lt(s: Seq<char>, la: int, lb: int)
    requires
        0 <= la < lb < num_lines(s),
    ensures
        line_start(s, la) < line_start(s, lb),
    decreases lb - la,
{
    if la + 1 == lb {
        lemma_line_start_increasing(s, la);
    } else {
        lemma_line_start_lt(s, la, lb - 1);
        lemma_line_start_increasing(s, lb - 1);
    }
}

/// The span of line `l` is well-formed.
pub proof fn lemma_line_span(s: Seq<char>, l: int)
    requires
        0 <= l < num_lines(s),
    ensures
        0 <= line_start(s, l) <= line_end(s, l) <= s.len(),
        l + 1 < num_lines(s) ==> line_start(s, l) < line_end(s, l),
{
    lemma_line_start(s, l);
    if l + 1 < num_lines(s) {
        lemma_line_start_increasing(s, l);
        lemma_line_start(s, l + 1);
    }
}

} // verus!
