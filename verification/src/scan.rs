//! Subsequence search: the specification vocabulary shared by the byte-level
//! output parser and the character-level triple algebra, with the lemmas that
//! relate matches to concatenation.

use vstd::prelude::*;

verus! {

/// `needle` occurs in `hay` starting exactly at index `i`.
pub open spec fn matches_at<T>(hay: Seq<T>, needle: Seq<T>, i: int) -> bool {
    &&& 0 <= i
    &&& i + needle.len() <= hay.len()
    &&& forall|k: int| 0 <= k < needle.len() ==> hay[i + k] == needle[k]
}

/// `needle` occurs somewhere in `hay`.
pub open spec fn has_subseq<T>(hay: Seq<T>, needle: Seq<T>) -> bool {
    exists|i: int| matches_at(hay, needle, i)
}

/// A match survives appending more elements on the right.
pub proof fn lemma_has_subseq_extend_right<T>(hay: Seq<T>, ext: Seq<T>, needle: Seq<T>)
    requires
        has_subseq(hay, needle),
    ensures
        has_subseq(hay + ext, needle),
{
    let i = choose|i: int| matches_at(hay, needle, i);
    assert(matches_at(hay + ext, needle, i));
}

/// A match survives prepending more elements on the left.
pub proof fn lemma_has_subseq_extend_left<T>(pre: Seq<T>, hay: Seq<T>, needle: Seq<T>)
    requires
        has_subseq(hay, needle),
    ensures
        has_subseq(pre + hay, needle),
{
    let i = choose|i: int| matches_at(hay, needle, i);
    assert forall|k: int| 0 <= k < needle.len() implies (pre + hay)[pre.len() + i + k]
        == needle[k] by {
        assert(hay[i + k] == needle[k]);
    }
    assert(matches_at(pre + hay, needle, pre.len() + i));
}

/// Searching `a + mid + b` for a needle that shares no element with `mid`
/// comes to searching `a` and `b` separately: no occurrence can overlap `mid`.
pub proof fn lemma_has_subseq_concat_avoid<T>(a: Seq<T>, mid: Seq<T>, b: Seq<T>, needle: Seq<T>)
    requires
        needle.len() > 0,
        mid.len() > 0,
        forall|j: int| 0 <= j < mid.len() ==> !needle.contains(#[trigger] mid[j]),
    ensures
        has_subseq(a + mid + b, needle) <==> has_subseq(a, needle) || has_subseq(b, needle),
{
    let whole = a + mid + b;
    if has_subseq(a, needle) {
        lemma_has_subseq_extend_right(a, mid + b, needle);
        assert(a + (mid + b) =~= whole);
    }
    if has_subseq(b, needle) {
        lemma_has_subseq_extend_left(a + mid, b, needle);
        assert((a + mid) + b =~= whole);
    }
    if has_subseq(whole, needle) {
        let i = choose|i: int| matches_at(whole, needle, i);
        if i + needle.len() <= a.len() {
            assert forall|k: int| 0 <= k < needle.len() implies a[i + k] == needle[k] by {
                assert(whole[i + k] == needle[k]);
            }
            assert(matches_at(a, needle, i));
        } else if i >= a.len() + mid.len() {
            let i2 = i - a.len() - mid.len();
            assert forall|k: int| 0 <= k < needle.len() implies b[i2 + k] == needle[k] by {
                assert(whole[i + k] == needle[k]);
            }
            assert(matches_at(b, needle, i2));
        } else {
            // The window [i, i + needle.len()) overlaps [a.len(), a.len() + mid.len()),
            // so some needle element equals an element of `mid` — excluded.
            let p = if i >= a.len() {
                i
            } else {
                a.len() as int
            };
            assert(a.len() <= p < a.len() + mid.len());
            assert(i <= p < i + needle.len());
            assert(whole[p] == mid[p - a.len()]);
            assert(whole[p] == needle[p - i]);
            assert(needle.contains(mid[p - a.len()]));
            assert(false);
        }
    }
}

} // verus!
