use detect_targets::{
    create_target_str, parse_abi, parse_host_triple_from_rustc_output,
    parse_libc_version_from_ldd_output, replace_substring, str_contains, str_eq, LibcFamily,
};

#[test]
fn ldd_output_markers_are_recognized() {
    assert_eq!(
        parse_libc_version_from_ldd_output(b"musl libc (x86_64)\nVersion 1.2.2\n"),
        Some(LibcFamily::Musl)
    );
    assert_eq!(
        parse_libc_version_from_ldd_output(b"ldd (Ubuntu GLIBC 2.35-0ubuntu3.1) 2.35\n"),
        Some(LibcFamily::Gnu)
    );
    assert_eq!(parse_libc_version_from_ldd_output(b"no markers at all\n"), None);
    assert_eq!(parse_libc_version_from_ldd_output(b""), None);
}

#[test]
fn ldd_output_musl_marker_wins_over_glibc_marker() {
    assert_eq!(
        parse_libc_version_from_ldd_output(b"GLIBC compatible musl libc\n"),
        Some(LibcFamily::Musl)
    );
}

#[test]
fn ldd_output_detection_is_line_ending_agnostic() {
    let lf = b"ldd (GNU libc)\nGLIBC 2.31\nFree Software Foundation\n";
    let crlf = b"ldd (GNU libc)\r\nGLIBC 2.31\r\nFree Software Foundation\r\n";
    assert_eq!(
        parse_libc_version_from_ldd_output(lf),
        parse_libc_version_from_ldd_output(crlf)
    );

    let lf = b"musl libc (aarch64)\nVersion 1.2.4\n";
    let crlf = b"musl libc (aarch64)\r\nVersion 1.2.4\r\n";
    assert_eq!(
        parse_libc_version_from_ldd_output(lf),
        parse_libc_version_from_ldd_output(crlf)
    );
}

#[test]
fn ldd_output_detection_is_idempotent() {
    let out = b"musl libc (x86_64)\n";
    assert_eq!(
        parse_libc_version_from_ldd_output(out),
        parse_libc_version_from_ldd_output(out)
    );
}

#[test]
fn ldd_output_need_not_be_well_formed_text() {
    let mut out = vec![0xffu8, 0xfe, 0x80];
    out.extend_from_slice(b"musl libc");
    out.push(0xff);
    assert_eq!(parse_libc_version_from_ldd_output(&out), Some(LibcFamily::Musl));
}

#[test]
fn host_line_is_extracted_from_rustc_output() {
    let out = b"rustc 1.76.0\nhost: aarch64-apple-darwin\nrelease: 1.76.0\n";
    assert_eq!(
        parse_host_triple_from_rustc_output(out).as_deref(),
        Some("aarch64-apple-darwin")
    );
}

#[test]
fn host_line_extraction_handles_crlf_endings() {
    let out = b"rustc 1.76.0\r\nhost: x86_64-pc-windows-msvc\r\nrelease: 1.76.0\r\n";
    assert_eq!(
        parse_host_triple_from_rustc_output(out).as_deref(),
        Some("x86_64-pc-windows-msvc")
    );
}

#[test]
fn host_line_extraction_takes_the_first_host_line() {
    let out = b"host: first-one\nhost: second-one\n";
    assert_eq!(parse_host_triple_from_rustc_output(out).as_deref(), Some("first-one"));
}

#[test]
fn host_line_extraction_accepts_a_final_unterminated_line() {
    let out = b"rustc 1.76.0\nhost: x86_64-unknown-linux-gnu";
    assert_eq!(
        parse_host_triple_from_rustc_output(out).as_deref(),
        Some("x86_64-unknown-linux-gnu")
    );
}

#[test]
fn host_line_extraction_skips_lines_that_are_not_text() {
    let mut out = b"host: ".to_vec();
    out.extend_from_slice(&[0xff, 0xfe]);
    out.extend_from_slice(b"\nhost: x86_64-unknown-linux-gnu\n");
    assert_eq!(
        parse_host_triple_from_rustc_output(&out).as_deref(),
        Some("x86_64-unknown-linux-gnu")
    );
}

#[test]
fn host_line_extraction_reports_nothing_without_a_host_line() {
    assert_eq!(parse_host_triple_from_rustc_output(b""), None);
    assert_eq!(parse_host_triple_from_rustc_output(b"release: 1.76.0\n"), None);
    assert_eq!(parse_host_triple_from_rustc_output(b"hostnames are not host lines\n"), None);
}

#[test]
fn parse_abi_strips_the_libc_marker() {
    assert_eq!(parse_abi("armv7-unknown-linux-gnueabihf").as_deref(), Some("eabihf"));
    assert_eq!(parse_abi("armv7-unknown-linux-musleabihf").as_deref(), Some("eabihf"));
    assert_eq!(parse_abi("x86_64-unknown-linux-gnu").as_deref(), Some(""));
    assert_eq!(parse_abi("x86_64-unknown-linux-musl").as_deref(), Some(""));
}

#[test]
fn parse_abi_rejects_unknown_libc_markers() {
    assert_eq!(parse_abi("x86_64-unknown-linux-uclibc"), None);
    assert_eq!(parse_abi("x86_64-apple-darwin"), None);
}

#[test]
fn create_target_str_recomposes_triples() {
    assert_eq!(
        create_target_str("armv7-unknown-linux-gnueabihf", "musl", "eabihf"),
        "armv7-unknown-linux-musleabihf"
    );
    assert_eq!(
        create_target_str("x86_64-unknown-linux-gnu", "gnu", ""),
        "x86_64-unknown-linux-gnu"
    );
}

#[test]
fn replace_substring_replaces_every_occurrence() {
    assert_eq!(
        replace_substring("x86_64-unknown-linux-gnu", "gnu", "musl"),
        "x86_64-unknown-linux-musl"
    );
    assert_eq!(replace_substring("gnu-gnu", "gnu", "musl"), "musl-musl");
    assert_eq!(replace_substring("plain", "gnu", "musl"), "plain");
}

#[test]
fn string_helpers_behave_as_stated() {
    assert!(str_contains("x86_64-unknown-linux-gnu", "gnu"));
    assert!(!str_contains("x86_64-apple-darwin", "gnu"));
    assert!(str_eq("aarch64-apple-darwin", "aarch64-apple-darwin"));
    assert!(!str_eq("aarch64-apple-darwin", "x86_64-apple-darwin"));
}

#[test]
fn libc_family_markers() {
    assert_eq!(LibcFamily::Gnu.marker(), "gnu");
    assert_eq!(LibcFamily::Musl.marker(), "musl");
}
