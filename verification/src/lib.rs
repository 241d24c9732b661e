//! Runtime detection of the target triples best suited for the host machine.
//!
//! The detector prefers what a compiler toolchain reports about the host; when
//! no toolchain is available it falls back to OS-specific heuristics (libc
//! detection on Linux, silicon-architecture detection on macOS).  Every
//! decision is made on plain captured values, so the whole policy is stated in
//! contracts and verified; running the external commands is left to the caller.

pub mod detect;
pub mod output;
pub mod scan;
pub mod triple;

pub use detect::{
    detect_targets_fallback, detect_targets_from_probe, detect_targets_linux,
    detect_targets_macos, detect_targets_macos_host, get_target_from_rustc, DetectError, HostOs,
    ProcessOutput,
};
pub use output::{parse_host_triple_from_rustc_output, parse_libc_version_from_ldd_output};
pub use triple::{create_target_str, parse_abi, replace_substring, str_contains, str_eq};

use vstd::prelude::*;

verus! {

/// The flavor of the C runtime a binary is linked against, as far as this
/// detector distinguishes: glibc-compatible ("gnu") or musl-compatible
/// ("musl").
#[derive(Clone, Copy, Debug, PartialEq, Eq, Structural)]
pub enum LibcFamily {
    Gnu,
    Musl,
}

impl LibcFamily {
    /// The marker this family contributes to a target triple's ABI field.
    pub open spec fn spec_marker(self) -> Seq<char> {
        match self {
            LibcFamily::Gnu => seq!['g', 'n', 'u'],
            LibcFamily::Musl => seq!['m', 'u', 's', 'l'],
        }
    }

    /// Returns the triple marker of this libc family.
    pub fn marker(self) -> (r: &'static str)
        ensures
            r@ == self.spec_marker(),
    {
        match self {
            LibcFamily::Gnu => {
                let s = "gnu";
                proof {
                    reveal_strlit("gnu");
                }
                s
            },
            LibcFamily::Musl => {
                let s = "musl";
                proof {
                    reveal_strlit("musl");
                }
                s
            },
        }
    }
}

} // verus!
