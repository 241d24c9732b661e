//! Parsing of captured process output.
//!
//! Process output arrives as raw bytes.  The markers this module looks for
//! ("musl libc", "GLIBC", "host: ") are all ASCII, so they are located
//! directly in the byte stream; this finds exactly the occurrences that any
//! permissive text decoding of the output would show, since ASCII bytes decode
//! to themselves and never form part of a longer sequence.

use vstd::prelude::*;

use crate::scan::{has_subseq, lemma_has_subseq_concat_avoid, matches_at};
use crate::LibcFamily;

verus! {

/// The byte that ends a line.
pub const LINE_FEED: u8 = 10;

/// The byte a CRLF line ending carries before the line feed.
pub const CARRIAGE_RETURN: u8 = 13;

/// The bytes of "musl libc", by which musl's dynamic linker identifies itself.
pub open spec fn musl_output_marker() -> Seq<u8> {
    seq![109u8, 117u8, 115u8, 108u8, 32u8, 108u8, 105u8, 98u8, 99u8]
}

/// The bytes of "GLIBC", by which the GNU dynamic linker identifies itself.
pub open spec fn glibc_output_marker() -> Seq<u8> {
    seq![71u8, 76u8, 73u8, 66u8, 67u8]
}

fn musl_marker_bytes() -> (v: Vec<u8>)
    ensures
        v@ == musl_output_marker(),
{
    let mut v: Vec<u8> = Vec::new();
    v.push(109u8);
    v.push(117u8);
    v.push(115u8);
    v.push(108u8);
    v.push(32u8);
    v.push(108u8);
    v.push(105u8);
    v.push(98u8);
    v.push(99u8);
    proof {
        assert(v@ =~= musl_output_marker());
    }
    v
}

fn glibc_marker_bytes() -> (v: Vec<u8>)
    ensures
        v@ == glibc_output_marker(),
{
    let mut v: Vec<u8> = Vec::new();
    v.push(71u8);
    v.push(76u8);
    v.push(73u8);
    v.push(66u8);
    v.push(67u8);
    proof {
        assert(v@ =~= glibc_output_marker());
    }
    v
}

/// `needle` occurs in `hay` starting at `i`.
fn bytes_match_at(hay: &[u8], needle: &[u8], i: usize) -> (r: bool)
    requires
        i + needle@.len() <= hay@.len(),
    ensures
        r == matches_at(hay@, needle@, i as int),
{
    let n = needle.len();
    let h = hay.len();
    let mut k: usize = 0;
    while k < n
        invariant
            n == needle@.len(),
            h == hay@.len(),
            i + n <= h,
            k <= n,
            forall|kk: int| 0 <= kk < k ==> hay@[i + kk] == needle@[kk],
        decreases n - k,
    {
        if hay[i + k] != needle[k] {
            assert(!matches_at(hay@, needle@, i as int));
            return false;
        }
        k += 1;
    }
    true
}

/// `needle` occurs somewhere in `hay`.
fn bytes_contain(hay: &[u8], needle: &[u8]) -> (r: bool)
    requires
        needle@.len() > 0,
    ensures
        r == has_subseq(hay@, needle@),
{
    let n = needle.len();
    let h = hay.len();
    if n > h {
        assert(forall|i: int| !matches_at(hay@, needle@, i));
        return false;
    }
    let mut i: usize = 0;
    while i <= h - n
        invariant
            n == needle@.len(),
            h == hay@.len(),
            n <= h,
            i <= h - n + 1,
            forall|j: int| 0 <= j < i ==> !matches_at(hay@, needle@, j),
        decreases h - n - i + 1,
    {
        if bytes_match_at(hay, needle, i) {
            assert(has_subseq(hay@, needle@));
            return true;
        }
        i += 1;
    }
    assert forall|j: int| !matches_at(hay@, needle@, j) by {
        if 0 <= j < i {
        } else if j >= i {
            assert(j + n > h);
        }
    }
    false
}

/// The libc family that a piece of linker output reveals: the musl marker
/// wins over the glibc marker, and output showing neither reveals nothing.
pub open spec fn spec_libc_from_output(out: Seq<u8>) -> Option<LibcFamily> {
    if has_subseq(out, musl_output_marker()) {
        Some(LibcFamily::Musl)
    } else if has_subseq(out, glibc_output_marker()) {
        Some(LibcFamily::Gnu)
    } else {
        None
    }
}

/// Reports the libc family that the output of the dynamic linker's version
/// query identifies, or `None` when the output is inconclusive.
pub fn parse_libc_version_from_ldd_output(output: &[u8]) -> (r: Option<LibcFamily>)
    ensures
        r == spec_libc_from_output(output@),
{
    let musl = musl_marker_bytes();
    if bytes_contain(output, musl.as_slice()) {
        return Some(LibcFamily::Musl);
    }
    let glibc = glibc_marker_bytes();
    if bytes_contain(output, glibc.as_slice()) {
        return Some(LibcFamily::Gnu);
    }
    None
}

/// The given lines joined by the given separator, with no trailing separator.
pub open spec fn join_lines(lines: Seq<Seq<u8>>, sep: Seq<u8>) -> Seq<u8>
    decreases lines.len(),
{
    if lines.len() == 0 {
        Seq::empty()
    } else if lines.len() == 1 {
        lines[0]
    } else {
        lines[0] + sep + join_lines(lines.drop_first(), sep)
    }
}

proof fn lemma_join_separator_agnostic(
    lines: Seq<Seq<u8>>,
    sep1: Seq<u8>,
    sep2: Seq<u8>,
    needle: Seq<u8>,
)
    requires
        needle.len() > 0,
        sep1.len() > 0,
        sep2.len() > 0,
        forall|j: int| 0 <= j < sep1.len() ==> !needle.contains(#[trigger] sep1[j]),
        forall|j: int| 0 <= j < sep2.len() ==> !needle.contains(#[trigger] sep2[j]),
    ensures
        has_subseq(join_lines(lines, sep1), needle) == has_subseq(join_lines(lines, sep2), needle),
    decreases lines.len(),
{
    if lines.len() >= 2 {
        let rest = lines.drop_first();
        lemma_has_subseq_concat_avoid(lines[0], sep1, join_lines(rest, sep1), needle);
        lemma_has_subseq_concat_avoid(lines[0], sep2, join_lines(rest, sep2), needle);
        lemma_join_separator_agnostic(rest, sep1, sep2, needle);
    }
}

/// Marker detection is line-ending-agnostic: the same lines joined with LF
/// and with CRLF endings reveal the same libc family.
pub proof fn lemma_libc_detection_line_ending_agnostic(lines: Seq<Seq<u8>>)
    ensures
        spec_libc_from_output(join_lines(lines, seq![LINE_FEED])) == spec_libc_from_output(
            join_lines(lines, seq![CARRIAGE_RETURN, LINE_FEED]),
        ),
{
    let lf = seq![LINE_FEED];
    let crlf = seq![CARRIAGE_RETURN, LINE_FEED];
    assert forall|j: int| 0 <= j < lf.len() implies !musl_output_marker().contains(
        #[trigger] lf[j],
    ) && !glibc_output_marker().contains(lf[j]) by {
        lemma_markers_avoid_line_endings(lf[j]);
    }
    assert forall|j: int| 0 <= j < crlf.len() implies !musl_output_marker().contains(
        #[trigger] crlf[j],
    ) && !glibc_output_marker().contains(crlf[j]) by {
        lemma_markers_avoid_line_endings(crlf[j]);
    }
    lemma_join_separator_agnostic(lines, lf, crlf, musl_output_marker());
    lemma_join_separator_agnostic(lines, lf, crlf, glibc_output_marker());
}

/// Host-triple extraction is line-ending-agnostic too: the same lines joined
/// with LF and with CRLF endings report the same host triple.
pub proof fn lemma_host_triple_line_ending_agnostic(lines: Seq<Seq<u8>>)
    requires
        forall|i: int| 0 <= i < lines.len() ==> !(#[trigger] lines[i]).contains(LINE_FEED)
            && !lines[i].contains(CARRIAGE_RETURN),
    ensures
        spec_rustc_host_triple(join_lines(lines, seq![LINE_FEED])) == spec_rustc_host_triple(
            join_lines(lines, seq![CARRIAGE_RETURN, LINE_FEED]),
        ),
    decreases lines.len(),
{
    if lines.len() >= 2 {
        let l0 = lines[0];
        let rest = lines.drop_first();
        let lf = seq![LINE_FEED];
        let crlf = seq![CARRIAGE_RETURN, LINE_FEED];
        let s1 = join_lines(lines, lf);
        let s2 = join_lines(lines, crlf);
        let r1 = join_lines(rest, lf);
        let r2 = join_lines(rest, crlf);
        assert(s1 == l0 + lf + r1);
        assert(s2 == l0 + crlf + r2);
        lemma_line_len(s1);
        assert forall|j: int| 0 <= j < l0.len() implies s1[j] != LINE_FEED && s2[j]
            != LINE_FEED by {
            assert(s1[j] == l0[j] && s2[j] == l0[j]);
            assert(!l0.contains(l0[j]) ==> false);
        }
        assert(s1[l0.len() as int] == LINE_FEED);
        assert(line_len(s1) == l0.len());
        lemma_line_len(s2);
        assert(s2[l0.len() as int] == CARRIAGE_RETURN);
        assert(s2[l0.len() as int + 1] == LINE_FEED);
        assert(line_len(s2) == l0.len() + 1);
        assert(s1.take(l0.len() as int) =~= l0);
        assert(s2.take(l0.len() as int + 1) =~= l0 + seq![CARRIAGE_RETURN]);
        if l0.len() > 0 {
            assert(l0[l0.len() - 1] != CARRIAGE_RETURN) by {
                assert(!l0.contains(l0[l0.len() - 1]) ==> false);
            }
        }
        assert(chomp(s1.take(l0.len() as int)) == l0);
        assert(chomp(s2.take(l0.len() as int + 1)) =~= l0);
        assert(s1.skip(l0.len() as int + 1) =~= r1);
        assert(s2.skip(l0.len() as int + 2) =~= r2);
        assert forall|i: int| 0 <= i < rest.len() implies !(#[trigger] rest[i]).contains(
            LINE_FEED,
        ) && !rest[i].contains(CARRIAGE_RETURN) by {
            assert(rest[i] == lines[i + 1]);
        }
        lemma_host_triple_line_ending_agnostic(rest);
    }
}

/// The bytes of "host: ", the prefix under which the toolchain's verbose
/// version output reports the host triple.
pub open spec fn host_line_prefix() -> Seq<u8> {
    seq![104u8, 111u8, 115u8, 116u8, 58u8, 32u8]
}

fn host_prefix_bytes() -> (v: Vec<u8>)
    ensures
        v@ == host_line_prefix(),
{
    let mut v: Vec<u8> = Vec::new();
    v.push(104u8);
    v.push(111u8);
    v.push(115u8);
    v.push(116u8);
    v.push(58u8);
    v.push(32u8);
    proof {
        assert(v@ =~= host_line_prefix());
    }
    v
}

/// The length of the first line of `s`: the index of the first line feed, or
/// the length of `s` when no line feed occurs.
pub open spec fn line_len(s: Seq<u8>) -> nat
    decreases s.len(),
{
    if s.len() == 0 {
        0
    } else if s[0] == LINE_FEED {
        0
    } else {
        1 + line_len(s.drop_first())
    }
}

proof fn lemma_line_len(s: Seq<u8>)
    ensures
        line_len(s) <= s.len(),
        forall|j: int| 0 <= j < line_len(s) ==> s[j] != LINE_FEED,
        line_len(s) < s.len() ==> s[line_len(s) as int] == LINE_FEED,
    decreases s.len(),
{
    if s.len() != 0 && s[0] != LINE_FEED {
        lemma_line_len(s.drop_first());
        assert forall|j: int| 0 <= j < line_len(s) implies s[j] != LINE_FEED by {
            if j > 0 {
                assert(s.drop_first()[j - 1] != LINE_FEED);
            }
        }
    }
}

/// A line terminated by a line feed sheds one trailing carriage return, so
/// that CRLF-ended lines read the same as LF-ended ones.
pub open spec fn chomp(line: Seq<u8>) -> Seq<u8> {
    if line.len() > 0 && line[line.len() - 1] == CARRIAGE_RETURN {
        line.drop_last()
    } else {
        line
    }
}

/// The host triple that a single (already line-ending-stripped) line reports:
/// the remainder of the line after the "host: " prefix, provided the line
/// carries that prefix and the remainder decodes as text.
pub open spec fn host_of_line(line: Seq<u8>) -> Option<Seq<u8>> {
    if matches_at(line, host_line_prefix(), 0) && vstd::utf8::valid_utf8(
        line.skip(host_line_prefix().len() as int),
    ) {
        Some(line.skip(host_line_prefix().len() as int))
    } else {
        None
    }
}

/// The host triple that the toolchain's verbose version output reports: the
/// first line that, split at line feeds and stripped of a CRLF ending,
/// reports one.  A final unterminated line is scanned as it stands.
pub open spec fn spec_rustc_host_triple(s: Seq<u8>) -> Option<Seq<u8>>
    decreases s.len(),
{
    if s.len() == 0 {
        None
    } else {
        let k = line_len(s);
        if k < s.len() {
            match host_of_line(chomp(s.take(k as int))) {
                Some(t) => Some(t),
                None => spec_rustc_host_triple(s.skip(k as int + 1)),
            }
        } else {
            host_of_line(s)
        }
    }
}

/// Relies on `String::from_utf8`: it succeeds exactly on well-formed UTF-8
/// and the returned string holds exactly the given bytes.
#[verifier::external_body]
fn string_from_utf8(bytes: Vec<u8>) -> (r: Option<String>)
    ensures
        r matches Some(s) ==> bytes@ == vstd::utf8::encode_utf8(s@),
        vstd::utf8::valid_utf8(bytes@) ==> r is Some,
{
    String::from_utf8(bytes).ok()
}

/// Extracts the host triple that the toolchain's verbose version output
/// reports, scanning the captured standard output line by line for the
/// "host: " prefix.  Lines whose remainder is not well-formed text are
/// passed over, like every other line without the prefix.
pub fn parse_host_triple_from_rustc_output(stdout: &[u8]) -> (r: Option<String>)
    ensures
        r matches Some(t) ==> spec_rustc_host_triple(stdout@) == Some(
            vstd::utf8::encode_utf8(t@),
        ),
        r is None ==> spec_rustc_host_triple(stdout@) is None,
{
    broadcast use vstd::utf8::encode_utf8_valid_utf8;

    let len = stdout.len();
    let prefix = host_prefix_bytes();
    let mut start: usize = 0;
    proof {
        assert(stdout@.skip(0) =~= stdout@);
    }
    loop
        invariant
            start <= len,
            len == stdout@.len(),
            prefix@ == host_line_prefix(),
            spec_rustc_host_triple(stdout@) == spec_rustc_host_triple(stdout@.skip(start as int)),
        decreases len - start,
    {
        let ghost tail = stdout@.skip(start as int);
        let mut j: usize = start;
        while j < len && stdout[j] != LINE_FEED
            invariant
                start <= j <= len,
                len == stdout@.len(),
                forall|q: int| start <= q < j ==> stdout@[q] != LINE_FEED,
            decreases len - j,
        {
            j += 1;
        }
        proof {
            lemma_line_len(tail);
            assert forall|q: int| 0 <= q < j - start implies tail[q] != LINE_FEED by {
                assert(tail[q] == stdout@[start + q]);
            }
            if j < len {
                assert(tail[j - start] == stdout@[j as int]);
            }
            assert(line_len(tail) == j - start);
        }
        if j < len {
            // A line-feed-terminated line: strip a CRLF ending, scan it, and
            // move past it when it reports nothing.
            let line = vstd::slice::slice_subrange(stdout, start, j);
            proof {
                assert(line@ =~= tail.take(j - start));
            }
            let cline = if line.len() > 0 && line[line.len() - 1] == CARRIAGE_RETURN {
                let c = vstd::slice::slice_subrange(line, 0, line.len() - 1);
                proof {
                    assert(c@ =~= chomp(line@));
                }
                c
            } else {
                line
            };
            assert(cline@ == chomp(tail.take(j - start)));
            if cline.len() >= prefix.len() && bytes_match_at(cline, prefix.as_slice(), 0) {
                let rem = vstd::slice::slice_subrange(cline, 6, cline.len());
                proof {
                    assert(rem@ =~= cline@.skip(host_line_prefix().len() as int));
                }
                let rv = vstd::slice::slice_to_vec(rem);
                match string_from_utf8(rv) {
                    Some(s) => {
                        proof {
                            vstd::utf8::encode_utf8_valid_utf8(s@);
                            assert(vstd::utf8::valid_utf8(rem@));
                            assert(host_of_line(cline@) == Some(rem@));
                            assert(spec_rustc_host_triple(tail) == Some(rem@));
                        }
                        return Some(s);
                    },
                    None => {
                        proof {
                            assert(!vstd::utf8::valid_utf8(rem@));
                            assert(host_of_line(cline@) is None);
                        }
                    },
                }
            } else {
                proof {
                    assert(!matches_at(cline@, host_line_prefix(), 0));
                    assert(host_of_line(cline@) is None);
                }
            }
            proof {
                assert(tail.skip(j - start + 1) =~= stdout@.skip(j + 1));
                assert(spec_rustc_host_triple(stdout@) == spec_rustc_host_triple(
                    stdout@.skip(j + 1),
                ));
            }
            start = j + 1;
        } else {
            // The final, unterminated line is scanned as it stands.
            let line = vstd::slice::slice_subrange(stdout, start, len);
            proof {
                assert(line@ =~= tail);
            }
            if line.len() >= prefix.len() && bytes_match_at(line, prefix.as_slice(), 0) {
                let rem = vstd::slice::slice_subrange(line, 6, line.len());
                proof {
                    assert(rem@ =~= tail.skip(host_line_prefix().len() as int));
                }
                let rv = vstd::slice::slice_to_vec(rem);
                match string_from_utf8(rv) {
                    Some(s) => {
                        proof {
                            vstd::utf8::encode_utf8_valid_utf8(s@);
                            assert(vstd::utf8::valid_utf8(rem@));
                            assert(host_of_line(tail) == Some(rem@));
                            assert(spec_rustc_host_triple(tail) == Some(rem@));
                        }
                        return Some(s);
                    },
                    None => {
                        proof {
                            assert(!vstd::utf8::valid_utf8(rem@));
                            assert(host_of_line(tail) is None);
                            assert(spec_rustc_host_triple(tail) is None);
                        }
                        return None;
                    },
                }
            } else {
                proof {
                    assert(!matches_at(tail, host_line_prefix(), 0));
                    assert(spec_rustc_host_triple(tail) is None);
                }
                return None;
            }
        }
    }
}

proof fn lemma_markers_avoid_line_endings(b: u8)
    requires
        b == LINE_FEED || b == CARRIAGE_RETURN,
    ensures
        !musl_output_marker().contains(b),
        !glibc_output_marker().contains(b),
{
    assert forall|j: int| 0 <= j < musl_output_marker().len() implies musl_output_marker()[j]
        != b by {
        assert(musl_output_marker()[j] == musl_output_marker()[j]);
    }
    assert forall|j: int| 0 <= j < glibc_output_marker().len() implies glibc_output_marker()[j]
        != b by {
        assert(glibc_output_marker()[j] == glibc_output_marker()[j]);
    }
}

} // verus!
