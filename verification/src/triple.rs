//! The small algebra of target triples.
//!
//! A target triple is an opaque piece of text up to two operations: splitting
//! off the field after its last hyphen (the ABI field, which carries the libc
//! marker), and substring work against the known libc markers.  Composition
//! glues the part before the last hyphen back together with a libc marker and
//! the residual ABI qualifier.

use vstd::prelude::*;

use crate::scan::{has_subseq, matches_at};
use crate::LibcFamily;
use vstd::string::{StrSliceExecFns, StringExecFns};

verus! {

/// The part of a triple before its last hyphen (architecture, vendor, OS).
pub open spec fn spec_triple_prefix(t: Seq<char>) -> Seq<char> {
    match t.index_of_last('-') {
        Some(d) => t.take(d),
        None => t,
    }
}

/// The part of a triple after its last hyphen: the ABI field.
pub open spec fn spec_triple_suffix(t: Seq<char>) -> Seq<char> {
    match t.index_of_last('-') {
        Some(d) => t.skip(d + 1),
        None => t,
    }
}

/// The residual ABI qualifier of a triple: its ABI field stripped of the
/// leading libc marker ("musl" or "gnu"), or nothing when the field starts
/// with neither marker.
pub open spec fn spec_parse_abi(t: Seq<char>) -> Option<Seq<char>> {
    let suffix = spec_triple_suffix(t);
    if LibcFamily::Musl.spec_marker().is_prefix_of(suffix) {
        Some(suffix.skip(LibcFamily::Musl.spec_marker().len() as int))
    } else if LibcFamily::Gnu.spec_marker().is_prefix_of(suffix) {
        Some(suffix.skip(LibcFamily::Gnu.spec_marker().len() as int))
    } else {
        None
    }
}

/// A triple recomposed from the prefix of `t`, a hyphen, a libc marker, and a
/// residual ABI qualifier, the last two joined without a separator.
pub open spec fn spec_compose_triple(t: Seq<char>, libc: Seq<char>, abi: Seq<char>) -> Seq<char> {
    spec_triple_prefix(t) + seq!['-'] + libc + abi
}

/// `s`, with every occurrence of `pat` replaced by `to`, scanning from the
/// left without overlap.
pub open spec fn spec_replace(s: Seq<char>, pat: Seq<char>, to: Seq<char>) -> Seq<char>
    decreases s.len(),
{
    if pat.len() == 0 || s.len() < pat.len() {
        s
    } else if matches_at(s, pat, 0) {
        to + spec_replace(s.skip(pat.len() as int), pat, to)
    } else {
        seq![s[0]] + spec_replace(s.drop_first(), pat, to)
    }
}

/// Replacing with something at least as long as the pattern never shrinks.
proof fn lemma_replace_len_ge(s: Seq<char>, pat: Seq<char>, to: Seq<char>)
    requires
        to.len() >= pat.len(),
    ensures
        spec_replace(s, pat, to).len() >= s.len(),
    decreases s.len(),
{
    if pat.len() == 0 || s.len() < pat.len() {
    } else if matches_at(s, pat, 0) {
        lemma_replace_len_ge(s.skip(pat.len() as int), pat, to);
    } else {
        lemma_replace_len_ge(s.drop_first(), pat, to);
    }
}

/// Replacing an occurring pattern with something strictly longer grows the
/// text, so the result differs from the original.
pub proof fn lemma_replace_grows(s: Seq<char>, pat: Seq<char>, to: Seq<char>)
    requires
        pat.len() > 0,
        to.len() > pat.len(),
        has_subseq(s, pat),
    ensures
        spec_replace(s, pat, to).len() > s.len(),
    decreases s.len(),
{
    let i = choose|i: int| matches_at(s, pat, i);
    if matches_at(s, pat, 0) {
        lemma_replace_len_ge(s.skip(pat.len() as int), pat, to);
    } else {
        assert(i != 0);
        assert forall|k: int| 0 <= k < pat.len() implies s.drop_first()[i - 1 + k]
            == pat[k] by {
            assert(s[i + k] == pat[k]);
        }
        assert(matches_at(s.drop_first(), pat, i - 1));
        lemma_replace_grows(s.drop_first(), pat, to);
    }
}

/// Reports the position of the last hyphen of `s`.
fn str_last_dash(s: &str) -> (r: Option<usize>)
    ensures
        match r {
            Some(i) => s@.index_of_last('-') == Some(i as int),
            None => s@.index_of_last('-') is None,
        },
{
    proof {
        s@.index_of_last_ensures('-');
    }
    let l = s.unicode_len();
    let mut i: usize = l;
    while i > 0
        invariant
            i <= l,
            l == s@.len(),
            forall|j: int| i <= j < l ==> s@[j] != '-',
        decreases i,
    {
        if s.get_char(i - 1) == '-' {
            proof {
                s@.index_of_last_ensures('-');
                assert(s@.contains('-'));
            }
            return Some(i - 1);
        }
        i -= 1;
    }
    proof {
        s@.index_of_last_ensures('-');
        if s@.contains('-') {
            let w = choose|w: int| 0 <= w < s@.len() && s@[w] == '-';
            assert(false);
        }
    }
    None
}

/// `p` is a prefix of `s`.
fn str_starts_with(s: &str, p: &str) -> (r: bool)
    ensures
        r == p@.is_prefix_of(s@),
{
    let ls = s.unicode_len();
    let lp = p.unicode_len();
    if lp > ls {
        return false;
    }
    let mut k: usize = 0;
    while k < lp
        invariant
            k <= lp,
            lp == p@.len(),
            ls == s@.len(),
            lp <= ls,
            forall|q: int| 0 <= q < k ==> s@[q] == p@[q],
        decreases lp - k,
    {
        if s.get_char(k) != p.get_char(k) {
            proof {
                assert(s@.subrange(0, lp as int)[k as int] == s@[k as int]);
            }
            return false;
        }
        k += 1;
    }
    proof {
        assert(p@ =~= s@.subrange(0, lp as int));
    }
    true
}

/// The two pieces of text are equal.
pub fn str_eq(a: &str, b: &str) -> (r: bool)
    ensures
        r == (a@ == b@),
{
    let la = a.unicode_len();
    let lb = b.unicode_len();
    if la != lb {
        return false;
    }
    let mut k: usize = 0;
    while k < la
        invariant
            k <= la,
            la == a@.len(),
            la == b@.len(),
            forall|q: int| 0 <= q < k ==> a@[q] == b@[q],
        decreases la - k,
    {
        if a.get_char(k) != b.get_char(k) {
            return false;
        }
        k += 1;
    }
    proof {
        assert(a@ =~= b@);
    }
    true
}

/// `pat` occurs in `s` starting at `i`.
fn str_match_at(s: &str, pat: &str, i: usize) -> (r: bool)
    requires
        i + pat@.len() <= s@.len(),
    ensures
        r == matches_at(s@, pat@, i as int),
{
    let n = pat.unicode_len();
    let h = s.unicode_len();
    let mut k: usize = 0;
    while k < n
        invariant
            n == pat@.len(),
            h == s@.len(),
            i + n <= h,
            k <= n,
            forall|kk: int| 0 <= kk < k ==> s@[i + kk] == pat@[kk],
        decreases n - k,
    {
        if s.get_char(i + k) != pat.get_char(k) {
            assert(!matches_at(s@, pat@, i as int));
            return false;
        }
        k += 1;
    }
    true
}

/// `pat` occurs somewhere in `s`.
pub fn str_contains(s: &str, pat: &str) -> (r: bool)
    requires
        pat@.len() > 0,
    ensures
        r == has_subseq(s@, pat@),
{
    let n = pat.unicode_len();
    let h = s.unicode_len();
    if n > h {
        assert(forall|i: int| !matches_at(s@, pat@, i));
        return false;
    }
    let mut i: usize = 0;
    while i <= h - n
        invariant
            n == pat@.len(),
            h == s@.len(),
            n <= h,
            i <= h - n + 1,
            forall|j: int| 0 <= j < i ==> !matches_at(s@, pat@, j),
        decreases h - n - i + 1,
    {
        if str_match_at(s, pat, i) {
            assert(has_subseq(s@, pat@));
            return true;
        }
        i += 1;
    }
    assert forall|j: int| !matches_at(s@, pat@, j) by {
        if 0 <= j < i {
        } else if j >= i {
            assert(j + n > h);
        }
    }
    false
}

/// `s`, with every occurrence of `pat` replaced by `to`.
pub fn replace_substring(s: &str, pat: &str, to: &str) -> (r: String)
    requires
        pat@.len() > 0,
    ensures
        r@ == spec_replace(s@, pat@, to@),
{
    let sl = s.unicode_len();
    let pl = pat.unicode_len();
    let mut out = String::new();
    let mut i: usize = 0;
    proof {
        assert(s@.skip(0) =~= s@);
    }
    while i <= sl && pl <= sl - i
        invariant
            sl == s@.len(),
            pl == pat@.len(),
            pl > 0,
            i <= sl,
            out@ + spec_replace(s@.skip(i as int), pat@, to@) == spec_replace(s@, pat@, to@),
        decreases sl - i,
    {
        proof {
            assert forall|k: int| 0 <= k < pl implies s@.skip(i as int)[k] == s@[i + k] by {}
        }
        if str_match_at(s, pat, i) {
            out.append(to);
            proof {
                assert(matches_at(s@.skip(i as int), pat@, 0));
                assert(s@.skip(i as int).skip(pl as int) =~= s@.skip(i + pl));
            }
            i += pl;
        } else {
            let piece = s.substring_char(i, i + 1);
            out.append(piece);
            proof {
                assert(!matches_at(s@.skip(i as int), pat@, 0));
                assert(s@.skip(i as int).drop_first() =~= s@.skip(i + 1));
                assert(piece@ =~= seq![s@.skip(i as int)[0]]);
            }
            i += 1;
        }
    }
    let tail = s.substring_char(i, sl);
    out.append(tail);
    proof {
        assert(tail@ =~= s@.skip(i as int));
    }
    out
}

/// The residual ABI qualifier of `target`, or `None` when its ABI field
/// starts with neither libc marker.
pub fn parse_abi(target: &str) -> (r: Option<String>)
    requires
        target@.contains('-'),
    ensures
        r matches Some(a) ==> spec_parse_abi(target@) == Some(a@),
        r is None ==> spec_parse_abi(target@) is None,
{
    let l = target.unicode_len();
    let d = match str_last_dash(target) {
        Some(d) => d,
        None => {
            proof {
                target@.index_of_last_ensures('-');
            }
            vstd::pervasive::unreached()
        },
    };
    proof {
        target@.index_of_last_ensures('-');
    }
    let suffix = target.substring_char(d + 1, l);
    proof {
        assert(suffix@ =~= spec_triple_suffix(target@));
    }
    let sl = suffix.unicode_len();
    let musl = LibcFamily::Musl.marker();
    if str_starts_with(suffix, musl) {
        let a = suffix.substring_char(4, sl);
        proof {
            assert(a@ =~= spec_triple_suffix(target@).skip(4));
        }
        return Some(String::from_str(a));
    }
    let gnu = LibcFamily::Gnu.marker();
    if str_starts_with(suffix, gnu) {
        let a = suffix.substring_char(3, sl);
        proof {
            assert(a@ =~= spec_triple_suffix(target@).skip(3));
        }
        return Some(String::from_str(a));
    }
    None
}

/// Composes a triple from the prefix of `target`, the given libc marker, and
/// the residual ABI qualifier: prefix, a hyphen, then marker and qualifier
/// joined without a separator.
pub fn create_target_str(target: &str, libc_version: &str, abi: &str) -> (r: String)
    requires
        target@.contains('-'),
    ensures
        r@ == spec_compose_triple(target@, libc_version@, abi@),
{
    let d = match str_last_dash(target) {
        Some(d) => d,
        None => {
            proof {
                target@.index_of_last_ensures('-');
            }
            vstd::pervasive::unreached()
        },
    };
    proof {
        target@.index_of_last_ensures('-');
    }
    let prefix = target.substring_char(0, d);
    proof {
        assert(prefix@ =~= spec_triple_prefix(target@));
    }
    let mut out = String::from_str(prefix);
    let dash = "-";
    proof {
        reveal_strlit("-");
        assert(dash@ =~= seq!['-']);
    }
    out.append(dash);
    out.append(libc_version);
    out.append(abi);
    out
}

} // verus!
