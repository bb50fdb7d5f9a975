//! The host platform: which hosts are supported, and the names under which a
//! supported host is recorded.

use crate::text::{contains, occurs, occurs_at, same_text};
use vstd::prelude::*;
use vstd::string::StringExecFns;

verus! {

/// Architecture and operating system as the host reports them, read once when a
/// first run is detected. Neither string is stored as it is.
#[derive(Debug, Clone, PartialEq, Eq)]
pub struct PlatformDescriptor {
    pub arch: String,
    pub os: String,
}

/// Architecture and operating system under the names that the configuration
/// records.
#[derive(Debug, Clone, PartialEq, Eq)]
pub struct SystemInfo {
    pub arch: String,
    pub os: String,
}

/// The two instruction-set families that the launcher runs on.
pub open spec fn supported_arch(arch: Seq<char>) -> bool {
    arch == "x86_64"@ || arch == "aarch64"@
}

/// The two operating systems that the launcher runs on.
pub open spec fn supported_os(os: Seq<char>) -> bool {
    os == "linux"@ || os == "macos"@
}

/// The recorded name of an architecture: `arm` for every ARM flavour, `x86` for
/// every x86 flavour, and the reported name where it is neither.
pub open spec fn normalized_arch(arch: Seq<char>) -> Seq<char> {
    if occurs(arch, "arm"@) || occurs(arch, "aarch"@) {
        "arm"@
    } else if occurs(arch, "x86"@) {
        "x86"@
    } else {
        arch
    }
}

/// The recorded name of an operating system: `Linux`, `MacOS`, or the reported
/// name where it is neither.
pub open spec fn normalized_os(os: Seq<char>) -> Seq<char> {
    if os == "linux"@ {
        "Linux"@
    } else if os == "macos"@ {
        "MacOS"@
    } else {
        os
    }
}

/// Whether the launcher runs on a host that reports `arch`.
pub fn is_supported_arch(arch: &str) -> (supported: bool)
    ensures
        supported == supported_arch(arch@),
{
    same_text(arch, "x86_64") || same_text(arch, "aarch64")
}

/// Whether the launcher runs on a host that reports `os`.
pub fn is_supported_os(os: &str) -> (supported: bool)
    ensures
        supported == supported_os(os@),
{
    same_text(os, "linux") || same_text(os, "macos")
}

/// The name under which `arch` is recorded.
pub fn normalize_arch(arch: &str) -> (name: String)
    ensures
        name@ == normalized_arch(arch@),
{
    if contains(arch, "arm") || contains(arch, "aarch") {
        String::from_str("arm")
    } else if contains(arch, "x86") {
        String::from_str("x86")
    } else {
        String::from_str(arch)
    }
}

/// The name under which `os` is recorded.
pub fn normalize_os(os: &str) -> (name: String)
    ensures
        name@ == normalized_os(os@),
{
    if same_text(os, "linux") {
        String::from_str("Linux")
    } else if same_text(os, "macos") {
        String::from_str("MacOS")
    } else {
        String::from_str(os)
    }
}

impl PlatformDescriptor {
    /// Whether the launcher runs on this host: both the architecture and the
    /// operating system have to be supported.
    pub open spec fn supported(&self) -> bool {
        supported_arch(self.arch@) && supported_os(self.os@)
    }

    /// Whether the launcher runs on this host.
    pub fn is_supported(&self) -> (supported: bool)
        ensures
            supported == self.supported(),
    {
        is_supported_os(self.os.as_str()) && is_supported_arch(self.arch.as_str())
    }

    /// What is recorded of this host.
    pub fn system_info(&self) -> (info: SystemInfo)
        ensures
            info.arch@ == normalized_arch(self.arch@),
            info.os@ == normalized_os(self.os@),
    {
        SystemInfo { arch: normalize_arch(self.arch.as_str()), os: normalize_os(self.os.as_str()) }
    }
}

/// A text that holds the first character of a pattern nowhere holds the pattern
/// nowhere.
proof fn lemma_first_char_missing(text: Seq<char>, pat: Seq<char>)
    requires
        pat.len() > 0,
        forall|i: int| 0 <= i < text.len() ==> text[i] != pat[0],
    ensures
        !occurs(text, pat),
{
    assert forall|at: int| !occurs_at(text, pat, at) by {
        if occurs_at(text, pat, at) {
            assert(text.subrange(at, at + pat.len())[0] == text[at]);
        }
    }
}

/// On a supported host the recorded architecture is `x86` or `arm`, and the
/// recorded operating system is `Linux` or `MacOS`: `x86_64` is recorded as
/// `x86`, `aarch64` as `arm`, `linux` as `Linux` and `macos` as `MacOS`.
pub proof fn lemma_supported_host_is_normalized(arch: Seq<char>, os: Seq<char>)
    requires
        supported_arch(arch),
        supported_os(os),
    ensures
        arch == "x86_64"@ ==> normalized_arch(arch) == "x86"@,
        arch == "aarch64"@ ==> normalized_arch(arch) == "arm"@,
        os == "linux"@ ==> normalized_os(os) == "Linux"@,
        os == "macos"@ ==> normalized_os(os) == "MacOS"@,
        normalized_arch(arch) == "x86"@ || normalized_arch(arch) == "arm"@,
        normalized_os(os) == "Linux"@ || normalized_os(os) == "MacOS"@,
{
    reveal_strlit("x86_64");
    reveal_strlit("aarch64");
    reveal_strlit("arm");
    reveal_strlit("aarch");
    reveal_strlit("x86");
    reveal_strlit("linux");
    reveal_strlit("macos");
    if arch == "aarch64"@ {
        assert(arch.subrange(0, 5) =~= "aarch"@);
        assert(occurs_at(arch, "aarch"@, 0));
    } else {
        lemma_first_char_missing(arch, "arm"@);
        lemma_first_char_missing(arch, "aarch"@);
        assert(arch.subrange(0, 3) =~= "x86"@);
        assert(occurs_at(arch, "x86"@, 0));
    }
    assert("linux"@ != "macos"@) by {
        assert("linux"@[0] == 'l');
        assert("macos"@[0] == 'm');
    }
}

} // verus!
