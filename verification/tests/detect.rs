use detect_targets::{
    detect_targets_fallback, detect_targets_from_probe, detect_targets_linux,
    detect_targets_macos, detect_targets_macos_host, get_target_from_rustc, DetectError, HostOs,
    ProcessOutput,
};

fn ran(stdout: &[u8], stderr: &[u8]) -> ProcessOutput {
    ProcessOutput { success: true, stdout: stdout.to_vec(), stderr: stderr.to_vec() }
}

#[test]
fn probe_gnu_triple_on_linux_offers_musl_fallback() {
    let v = detect_targets_from_probe(HostOs::Linux, "x86_64-unknown-linux-gnu");
    assert_eq!(v, ["x86_64-unknown-linux-gnu", "x86_64-unknown-linux-musl"]);
}

#[test]
fn probe_gnueabihf_triple_on_linux_offers_musleabihf_fallback() {
    let v = detect_targets_from_probe(HostOs::Linux, "armv7-unknown-linux-gnueabihf");
    assert_eq!(v, ["armv7-unknown-linux-gnueabihf", "armv7-unknown-linux-musleabihf"]);
}

#[test]
fn probe_aarch64_darwin_on_macos_offers_x86_64_fallback() {
    let v = detect_targets_from_probe(HostOs::MacOs, "aarch64-apple-darwin");
    assert_eq!(v, ["aarch64-apple-darwin", "x86_64-apple-darwin"]);
}

#[test]
fn probe_plain_triple_yields_it_alone() {
    let v = detect_targets_from_probe(HostOs::Linux, "x86_64-unknown-linux-musl");
    assert_eq!(v, ["x86_64-unknown-linux-musl"]);

    let v = detect_targets_from_probe(HostOs::MacOs, "x86_64-apple-darwin");
    assert_eq!(v, ["x86_64-apple-darwin"]);

    let v = detect_targets_from_probe(HostOs::Other, "x86_64-pc-windows-msvc");
    assert_eq!(v, ["x86_64-pc-windows-msvc"]);
}

#[test]
fn probe_augmentation_is_platform_specific() {
    // The glibc-to-musl augmentation belongs to Linux hosts alone.
    let v = detect_targets_from_probe(HostOs::Other, "x86_64-unknown-linux-gnu");
    assert_eq!(v, ["x86_64-unknown-linux-gnu"]);
}

#[test]
fn probe_lists_hold_no_duplicates() {
    for host in [HostOs::Linux, HostOs::MacOs, HostOs::Other] {
        for triple in [
            "x86_64-unknown-linux-gnu",
            "aarch64-apple-darwin",
            "gnu-gnu-gnu",
            "a-b",
        ] {
            let v = detect_targets_from_probe(host, triple);
            assert!(!v.is_empty());
            for i in 0..v.len() {
                for j in (i + 1)..v.len() {
                    assert_ne!(v[i], v[j]);
                }
            }
        }
    }
}

#[test]
fn linux_glibc_output_prefers_gnu_with_musl_fallback() {
    let ldd = ran(b"ldd (Ubuntu GLIBC 2.35-0ubuntu3.1) 2.35\n", b"");
    let v = detect_targets_linux("armv7-unknown-linux-gnueabihf", Some(&ldd)).unwrap();
    assert_eq!(v, ["armv7-unknown-linux-gnueabihf", "armv7-unknown-linux-musleabihf"]);
}

#[test]
fn linux_musl_output_yields_musl_alone() {
    let ldd = ran(b"", b"musl libc (x86_64)\nVersion 1.2.2\n");
    let v = detect_targets_linux("x86_64-unknown-linux-gnu", Some(&ldd)).unwrap();
    assert_eq!(v, ["x86_64-unknown-linux-musl"]);
}

#[test]
fn linux_inconclusive_output_yields_musl_alone() {
    let ldd = ran(b"no libc identification here\n", b"nothing either\n");
    let v = detect_targets_linux("x86_64-unknown-linux-gnu", Some(&ldd)).unwrap();
    assert_eq!(v, ["x86_64-unknown-linux-musl"]);
}

#[test]
fn linux_linker_launch_failure_yields_musl_alone() {
    let v = detect_targets_linux("x86_64-unknown-linux-gnu", None).unwrap();
    assert_eq!(v, ["x86_64-unknown-linux-musl"]);
}

#[test]
fn linux_unrecognized_libc_is_fatal() {
    let err = detect_targets_linux("x86_64-unknown-linux-uclibc", None).unwrap_err();
    assert_eq!(err, DetectError::UnrecognizedLibc);

    let ldd = ran(b"ldd (GNU libc) GLIBC\n", b"");
    let err = detect_targets_linux("x86_64-unknown-linux-uclibc", Some(&ldd)).unwrap_err();
    assert_eq!(err, DetectError::UnrecognizedLibc);
}

#[test]
fn macos_aarch64_guess_yields_both_triples() {
    let v = detect_targets_macos(Some("aarch64-apple-darwin"));
    assert_eq!(v, ["aarch64-apple-darwin", "x86_64-apple-darwin"]);
}

#[test]
fn macos_other_guess_yields_x86_64_alone() {
    let v = detect_targets_macos(Some("x86_64-apple-darwin"));
    assert_eq!(v, ["x86_64-apple-darwin"]);

    let v = detect_targets_macos(Some("x86_64-unknown-linux-gnu"));
    assert_eq!(v, ["x86_64-apple-darwin"]);

    let v = detect_targets_macos(None);
    assert_eq!(v, ["x86_64-apple-darwin"]);
}

#[test]
fn macos_host_heuristic_returns_a_known_candidate_list() {
    // Whatever the OS-level guess says of the machine running this test, the
    // heuristic settles on one of the two macOS candidate lists.
    let v = detect_targets_macos_host();
    let both = ["aarch64-apple-darwin", "x86_64-apple-darwin"];
    let x86_only = ["x86_64-apple-darwin"];
    assert!(v == both || v == x86_only);
}

#[test]
fn fallback_is_the_compile_time_triple_alone() {
    let v = detect_targets_fallback("powerpc64-unknown-freebsd");
    assert_eq!(v, ["powerpc64-unknown-freebsd"]);
}

#[test]
fn rustc_probe_success_reports_host_line() {
    let out = ran(
        b"rustc 1.76.0 (07dca489a 2024-02-04)\nbinary: rustc\nhost: x86_64-unknown-linux-gnu\nrelease: 1.76.0\n",
        b"",
    );
    assert_eq!(
        get_target_from_rustc(Some(&out)).as_deref(),
        Some("x86_64-unknown-linux-gnu")
    );
}

#[test]
fn rustc_probe_failure_reports_nothing() {
    assert_eq!(get_target_from_rustc(None), None);

    let failed = ProcessOutput {
        success: false,
        stdout: b"host: x86_64-unknown-linux-gnu\n".to_vec(),
        stderr: Vec::new(),
    };
    assert_eq!(get_target_from_rustc(Some(&failed)), None);

    let no_host_line = ran(b"rustc 1.76.0\nrelease: 1.76.0\n", b"");
    assert_eq!(get_target_from_rustc(Some(&no_host_line)), None);
}

#[test]
fn rustc_probe_reads_standard_output_only() {
    let out = ran(b"release: 1.76.0\n", b"host: x86_64-unknown-linux-gnu\n");
    assert_eq!(get_target_from_rustc(Some(&out)), None);
}
