//! The detection policy: which target triples suit the running host, in
//! order of preference.
//!
//! Every function here decides from plain captured values — what the
//! toolchain probe printed, what the dynamic linker's version query printed,
//! what the OS-level host guess returned — so the whole policy carries exact
//! contracts.  Running the external commands is the caller's business; only
//! the OS-level host guess, which is a plain call, is made here.

use vstd::prelude::*;

use crate::output::{
    parse_libc_version_from_ldd_output, parse_host_triple_from_rustc_output,
    spec_libc_from_output, spec_rustc_host_triple,
};
use crate::scan::has_subseq;
use crate::triple::{
    create_target_str, parse_abi, replace_substring, spec_compose_triple, spec_parse_abi,
    spec_replace, str_contains, str_eq, lemma_replace_grows,
};
use crate::LibcFamily;
use vstd::string::StringExecFns;

verus! {

/// The kind of operating system the detector is running on, as far as the
/// policy distinguishes: the two systems with a dedicated heuristic, and
/// everything else.
#[derive(Clone, Copy, Debug, PartialEq, Eq, Structural)]
pub enum HostOs {
    Linux,
    MacOs,
    Other,
}

/// The captured outcome of a process that could be launched at all.
pub struct ProcessOutput {
    /// Whether the process exited successfully.
    pub success: bool,
    /// The captured standard output.
    pub stdout: Vec<u8>,
    /// The captured standard error.
    pub stderr: Vec<u8>,
}

/// A fatal configuration fault: the detector cannot go on.
#[derive(Clone, Copy, Debug, PartialEq, Eq, Structural)]
pub enum DetectError {
    /// The compile-time triple's ABI field starts with neither "musl" nor
    /// "gnu", so the Linux heuristic does not understand the libc family the
    /// running binary was built for.
    UnrecognizedLibc,
}

/// A well-formed candidate list: non-empty and without duplicate entries.
pub open spec fn spec_candidates_wf(l: Seq<Seq<char>>) -> bool {
    &&& l.len() >= 1
    &&& forall|i: int, j: int| 0 <= i < j < l.len() ==> l[i] != l[j]
}

/// The native triple of Apple silicon hosts.
pub open spec fn spec_aarch64_darwin() -> Seq<char> {
    "aarch64-apple-darwin"@
}

/// The x86_64 macOS triple, usable under architecture translation.
pub open spec fn spec_x86_64_darwin() -> Seq<char> {
    "x86_64-apple-darwin"@
}

fn aarch64_darwin() -> (r: &'static str)
    ensures
        r@ == spec_aarch64_darwin(),
{
    "aarch64-apple-darwin"
}

fn x86_64_darwin() -> (r: &'static str)
    ensures
        r@ == spec_x86_64_darwin(),
{
    "x86_64-apple-darwin"
}

/// The candidate list after a successful toolchain probe reported `t`: `t`
/// first, then the platform-specific fallback it implies, if any.
pub open spec fn spec_probe_targets(host: HostOs, t: Seq<char>) -> Seq<Seq<char>> {
    match host {
        HostOs::Linux => {
            if has_subseq(t, LibcFamily::Gnu.spec_marker()) {
                seq![
                    t,
                    spec_replace(t, LibcFamily::Gnu.spec_marker(), LibcFamily::Musl.spec_marker()),
                ]
            } else {
                seq![t]
            }
        },
        HostOs::MacOs => {
            if t == spec_aarch64_darwin() {
                seq![t, spec_x86_64_darwin()]
            } else {
                seq![t]
            }
        },
        HostOs::Other => seq![t],
    }
}

fn single_candidate(t: &str) -> (r: Vec<String>)
    ensures
        r.deep_view() =~= seq![t@],
{
    let mut v: Vec<String> = Vec::new();
    v.push(String::from_str(t));
    proof {
        assert(v.deep_view() =~= seq![t@]);
    }
    v
}

/// The candidate list for a host whose toolchain probe reported the triple
/// `triple`: the probed triple first, then on Linux a musl variant of a
/// glibc triple, and on macOS the x86_64 fallback behind the native Apple
/// silicon triple.
pub fn detect_targets_from_probe(host: HostOs, triple: &str) -> (r: Vec<String>)
    ensures
        r.deep_view() == spec_probe_targets(host, triple@),
        spec_candidates_wf(r.deep_view()),
{
    match host {
        HostOs::Linux => {
            let gnu = LibcFamily::Gnu.marker();
            if str_contains(triple, gnu) {
                let musl = LibcFamily::Musl.marker();
                let replaced = replace_substring(triple, gnu, musl);
                let mut v: Vec<String> = Vec::new();
                v.push(String::from_str(triple));
                v.push(replaced);
                proof {
                    lemma_replace_grows(triple@, gnu@, musl@);
                    assert(v.deep_view() =~= spec_probe_targets(host, triple@));
                }
                v
            } else {
                single_candidate(triple)
            }
        },
        HostOs::MacOs => {
            let aarch = aarch64_darwin();
            if str_eq(triple, aarch) {
                let mut v: Vec<String> = Vec::new();
                v.push(String::from_str(triple));
                v.push(String::from_str(x86_64_darwin()));
                proof {
                    reveal_strlit("aarch64-apple-darwin");
                    reveal_strlit("x86_64-apple-darwin");
                    assert(spec_aarch64_darwin().len() != spec_x86_64_darwin().len());
                    assert(v.deep_view() =~= spec_probe_targets(host, triple@));
                }
                v
            } else {
                single_candidate(triple)
            }
        },
        HostOs::Other => single_candidate(triple),
    }
}

/// The triple a toolchain probe reported, if the probe ran, exited
/// successfully, and printed a "host: " line.
pub fn get_target_from_rustc(outcome: Option<&ProcessOutput>) -> (r: Option<String>)
    ensures
        match outcome {
            None => r is None,
            Some(po) => {
                if po.success {
                    match r {
                        Some(t) => spec_rustc_host_triple(po.stdout@) == Some(
                            vstd::utf8::encode_utf8(t@),
                        ),
                        None => spec_rustc_host_triple(po.stdout@) is None,
                    }
                } else {
                    r is None
                }
            },
        },
{
    match outcome {
        None => None,
        Some(po) => {
            if po.success {
                parse_host_triple_from_rustc_output(po.stdout.as_slice())
            } else {
                None
            }
        },
    }
}

/// The libc family that a run of the dynamic linker's version query
/// revealed: its standard output is consulted first, then, if inconclusive,
/// its standard error.
pub open spec fn spec_runtime_family(stdout: Seq<u8>, stderr: Seq<u8>) -> Option<LibcFamily> {
    match spec_libc_from_output(stdout) {
        Some(f) => Some(f),
        None => spec_libc_from_output(stderr),
    }
}

/// The Linux candidate list for residual ABI qualifier `abi`, given the libc
/// family the linker query revealed: both flavors, glibc first, when glibc
/// was detected; the portable musl flavor alone when musl was detected, the
/// output was inconclusive, or the query could not run at all.
pub open spec fn spec_linux_candidates(
    t: Seq<char>,
    abi: Seq<char>,
    family: Option<LibcFamily>,
) -> Seq<Seq<char>> {
    if family == Some(LibcFamily::Gnu) {
        seq![
            spec_compose_triple(t, LibcFamily::Gnu.spec_marker(), abi),
            spec_compose_triple(t, LibcFamily::Musl.spec_marker(), abi),
        ]
    } else {
        seq![spec_compose_triple(t, LibcFamily::Musl.spec_marker(), abi)]
    }
}

/// The Linux heuristic: without a working toolchain probe, derive the libc
/// family from the dynamic linker's version query (`ldd`, passed here as its
/// captured outcome, `None` when it could not be launched) and compose the
/// candidate triples from the compile-time triple `target`.  A compile-time
/// triple whose ABI field starts with neither libc marker is a fatal
/// configuration fault.
pub fn detect_targets_linux(target: &str, ldd: Option<&ProcessOutput>) -> (r: Result<
    Vec<String>,
    DetectError,
>)
    requires
        target@.contains('-'),
    ensures
        r is Err <==> spec_parse_abi(target@) is None,
        r matches Err(e) ==> e == DetectError::UnrecognizedLibc,
        r matches Ok(v) ==> {
            let family = match ldd {
                None => None,
                Some(po) => spec_runtime_family(po.stdout@, po.stderr@),
            };
            &&& spec_parse_abi(target@) matches Some(abi) && v.deep_view()
                == spec_linux_candidates(target@, abi, family)
            &&& spec_candidates_wf(v.deep_view())
        },
{
    let abi = match parse_abi(target) {
        Some(a) => a,
        None => {
            return Err(DetectError::UnrecognizedLibc);
        },
    };
    let family: Option<LibcFamily> = match ldd {
        None => None,
        Some(po) => {
            match parse_libc_version_from_ldd_output(po.stdout.as_slice()) {
                Some(f) => Some(f),
                None => parse_libc_version_from_ldd_output(po.stderr.as_slice()),
            }
        },
    };
    let gnu_detected = match family {
        Some(LibcFamily::Gnu) => true,
        _ => false,
    };
    if gnu_detected {
        let gnu_triple = create_target_str(target, LibcFamily::Gnu.marker(), abi.as_str());
        let musl_triple = create_target_str(target, LibcFamily::Musl.marker(), abi.as_str());
        let mut v: Vec<String> = Vec::new();
        v.push(gnu_triple);
        v.push(musl_triple);
        proof {
            assert(v.deep_view()[0].len() != v.deep_view()[1].len());
            assert(v.deep_view() =~= spec_linux_candidates(
                target@,
                abi@,
                match ldd {
                    None => None,
                    Some(po) => spec_runtime_family(po.stdout@, po.stderr@),
                },
            ));
        }
        Ok(v)
    } else {
        let musl_triple = create_target_str(target, LibcFamily::Musl.marker(), abi.as_str());
        let v = single_candidate(musl_triple.as_str());
        proof {
            assert(v.deep_view() =~= spec_linux_candidates(
                target@,
                abi@,
                match ldd {
                    None => None,
                    Some(po) => spec_runtime_family(po.stdout@, po.stderr@),
                },
            ));
        }
        Ok(v)
    }
}

/// The macOS candidate list for a given OS-level host guess: both Apple
/// triples, the native one first, when the host was recognized as Apple
/// silicon; the x86_64 triple alone otherwise.
pub open spec fn spec_macos_candidates(guess: Option<Seq<char>>) -> Seq<Seq<char>> {
    if guess == Some(spec_aarch64_darwin()) {
        seq![spec_aarch64_darwin(), spec_x86_64_darwin()]
    } else {
        seq![spec_x86_64_darwin()]
    }
}

/// The macOS heuristic's decision, given what the OS-level host guess
/// returned.
pub fn detect_targets_macos(guess: Option<&str>) -> (r: Vec<String>)
    ensures
        r.deep_view() == spec_macos_candidates(
            match guess {
                Some(g) => Some(g@),
                None => None,
            },
        ),
        spec_candidates_wf(r.deep_view()),
{
    proof {
        reveal_strlit("aarch64-apple-darwin");
        reveal_strlit("x86_64-apple-darwin");
    }
    let aarch = aarch64_darwin();
    let is_aarch = match guess {
        Some(g) => str_eq(g, aarch),
        None => false,
    };
    if is_aarch {
        let mut v: Vec<String> = Vec::new();
        v.push(String::from_str(aarch));
        v.push(String::from_str(x86_64_darwin()));
        proof {
            assert(spec_aarch64_darwin().len() != spec_x86_64_darwin().len());
            assert(v.deep_view() =~= seq![spec_aarch64_darwin(), spec_x86_64_darwin()]);
        }
        v
    } else {
        single_candidate(x86_64_darwin())
    }
}

/// Relies on `guess_host_triple::guess_host_triple`: it inspects the running
/// machine and returns one of a fixed table of triple constants, or `None`
/// when the machine is not recognized.  Nothing can be promised of which.
#[verifier::external_body]
fn guess_host_triple_raw() -> (r: Option<&'static str>) {
    guess_host_triple::guess_host_triple()
}

/// The macOS heuristic: asks the OS-level host guess for the actual silicon
/// architecture and decides from it.  Whatever the guess returns, the result
/// is one of the two macOS candidate lists.
pub fn detect_targets_macos_host() -> (r: Vec<String>)
    ensures
        r.deep_view() == spec_macos_candidates(Some(spec_aarch64_darwin())) || r.deep_view()
            == spec_macos_candidates(None),
        spec_candidates_wf(r.deep_view()),
{
    let guess = guess_host_triple_raw();
    detect_targets_macos(guess)
}

/// The candidate list for a host with no toolchain probe and no dedicated
/// heuristic: the compile-time triple of the running binary alone.
pub fn detect_targets_fallback(target: &str) -> (r: Vec<String>)
    ensures
        r.deep_view() == seq![target@],
        spec_candidates_wf(r.deep_view()),
{
    single_candidate(target)
}

} // verus!
