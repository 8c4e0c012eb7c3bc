use vstd::prelude::*;

verus! {

/// The byte value of a line feed.
pub const NEWLINE: u8 = 10;

/// The offsets of the line feeds of `s`, in increasing order.
pub open spec fn newline_positions(s: Seq<u8>) -> Seq<usize>
    decreases s.len(),
{
    if s.len() == 0 {
        seq![]
    } else if s.last() == NEWLINE {
        newline_positions(s.drop_last()).push((s.len() - 1) as usize)
    } else {
        newline_positions(s.drop_last())
    }
}

/// The byte offset at which 0-based line `k` of `s` begins: just after the
/// `k`-th line feed, or the end of `s` where it has fewer line feeds.
pub open spec fn line_start(s: Seq<u8>, k: int) -> int {
    let nl = newline_positions(s);
    if k <= 0 {
        0
    } else if k - 1 < nl.len() {
        nl[k - 1] + 1
    } else {
        s.len() as int
    }
}

/// The bytes of 0-based line `k` of `s`, with its line feed.
pub open spec fn line_text(s: Seq<u8>, k: int) -> Seq<u8> {
    s.subrange(line_start(s, k), line_start(s, k + 1))
}

/// Lines `first` up to `last`, excluding `last`, one after the other.
pub open spec fn lines_between(s: Seq<u8>, first: int, last: int) -> Seq<u8>
    decreases last - first,
{
    if first >= last {
        seq![]
    } else {
        lines_between(s, first, last - 1) + line_text(s, last - 1)
    }
}

/// Each recorded offset holds a line feed, lies inside `s`, and the offsets
/// increase strictly.
pub proof fn lemma_newline_positions(s: Seq<u8>)
    requires
        s.len() <= usize::MAX,
    ensures
        forall|i: int|
            0 <= i < newline_positions(s).len() ==> {
                &&& newline_positions(s)[i] < s.len()
                &&& s[newline_positions(s)[i] as int] == NEWLINE
            },
        forall|i: int, j: int|
            0 <= i < j < newline_positions(s).len() ==> newline_positions(s)[i]
                < newline_positions(s)[j],
    decreases s.len(),
{
    if s.len() > 0 {
        let t = s.drop_last();
        let p = newline_positions(t);
        let q = newline_positions(s);
        lemma_newline_positions(t);
        assert forall|i: int| 0 <= i < t.len() implies s[i] == t[i] by {}
        if s.last() == NEWLINE {
            assert(q == p.push((s.len() - 1) as usize));
            assert forall|i: int| 0 <= i < p.len() implies p[i] < s.len() - 1 by {}
            assert forall|i: int| 0 <= i < q.len() implies q[i] < s.len() && s[q[i] as int]
                == NEWLINE by {
                if i < p.len() {
                    assert(q[i] == p[i]);
                }
            }
            assert forall|i: int, j: int| 0 <= i < j < q.len() implies q[i] < q[j] by {
                assert(q[i] == p[i]);
                if j < p.len() {
                    assert(q[j] == p[j]);
                }
            }
        } else {
            assert(q == p);
        }
    }
}

/// Line starts never decrease and never pass the end of `s`.
pub proof fn lemma_line_start_monotone(s: Seq<u8>, j: int, k: int)
    requires
        s.len() <= usize::MAX,
        j <= k,
    ensures
        0 <= line_start(s, j) <= line_start(s, k) <= s.len(),
{
    lemma_newline_positions(s);
}

/// The lines from `first` to `last` are the bytes between their line starts.
pub proof fn lemma_lines_between(s: Seq<u8>, first: int, last: int)
    requires
        s.len() <= usize::MAX,
        first <= last,
    ensures
        0 <= line_start(s, first) <= line_start(s, last) <= s.len(),
        lines_between(s, first, last) == s.subrange(line_start(s, first), line_start(s, last)),
    decreases last - first,
{
    lemma_line_start_monotone(s, first, last);
    if first < last {
        lemma_lines_between(s, first, last - 1);
        lemma_line_start_monotone(s, first, last - 1);
        lemma_line_start_monotone(s, last - 1, last);
        assert(s.subrange(line_start(s, first), line_start(s, last - 1)) + s.subrange(
            line_start(s, last - 1),
            line_start(s, last),
        ) =~= s.subrange(line_start(s, first), line_start(s, last)));
    } else {
        lemma_line_start_monotone(s, first, last);
        assert(s.subrange(line_start(s, first), line_start(s, last)) =~= seq![]);
    }
}

/// Builds the newline index of a byte buffer: the offset of every line feed,
/// in increasing order.
pub fn get_newline_offsets(slice: &[u8]) -> (r: Vec<usize>)
    ensures
        r@ == newline_positions(slice@),
{
    let mut r: Vec<usize> = Vec::new();
    let mut i: usize = 0;
    while i < slice.len()
        invariant
            i <= slice@.len(),
            r@ == newline_positions(slice@.subrange(0, i as int)),
        decreases slice@.len() - i,
    {
        assert(slice@.subrange(0, i + 1).drop_last() =~= slice@.subrange(0, i as int));
        if slice[i] == NEWLINE {
            r.push(i);
        }
        i = i + 1;
    }
    assert(slice@.subrange(0, i as int) =~= slice@);
    r
}

} // verus!
