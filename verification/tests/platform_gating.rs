use launcher_bootstrap::platform::{
    is_supported_arch, is_supported_os, normalize_arch, normalize_os, PlatformDescriptor,
    SystemInfo,
};

fn host(arch: &str, os: &str) -> PlatformDescriptor {
    PlatformDescriptor { arch: arch.to_string(), os: os.to_string() }
}

#[test]
fn two_architectures_are_supported() {
    assert!(is_supported_arch("x86_64"));
    assert!(is_supported_arch("aarch64"));
    for other in ["armv7", "arm", "x86", "i686", "riscv64", "", "X86_64", "x86_64 ", "aarch64x"] {
        assert!(!is_supported_arch(other), "{other}");
    }
}

#[test]
fn two_operating_systems_are_supported() {
    assert!(is_supported_os("linux"));
    assert!(is_supported_os("macos"));
    for other in ["windows", "ios", "android", "freebsd", "", "Linux", "MacOS", "linux2"] {
        assert!(!is_supported_os(other), "{other}");
    }
}

#[test]
fn a_host_is_supported_only_with_both_parts_supported() {
    for arch in ["x86_64", "aarch64"] {
        for os in ["linux", "macos"] {
            assert!(host(arch, os).is_supported());
        }
    }
    assert!(!host("armv7", "linux").is_supported());
    assert!(!host("x86_64", "windows").is_supported());
    assert!(!host("riscv64", "freebsd").is_supported());
    assert!(!host("", "").is_supported());
    assert!(!host("linux", "x86_64").is_supported());
}

#[test]
fn architectures_are_recorded_by_family() {
    assert_eq!(normalize_arch("x86_64"), "x86");
    assert_eq!(normalize_arch("aarch64"), "arm");
    assert_eq!(normalize_arch("armv7"), "arm");
    assert_eq!(normalize_arch("arm"), "arm");
    assert_eq!(normalize_arch("x86"), "x86");
    assert_eq!(normalize_arch("riscv64"), "riscv64");
    assert_eq!(normalize_arch("i686"), "i686");
    assert_eq!(normalize_arch(""), "");
    assert_eq!(normalize_arch("x86-on-arm"), "arm");
}

#[test]
fn operating_systems_are_recorded_by_name() {
    assert_eq!(normalize_os("linux"), "Linux");
    assert_eq!(normalize_os("macos"), "MacOS");
    assert_eq!(normalize_os("windows"), "windows");
    assert_eq!(normalize_os("Linux"), "Linux");
    assert_eq!(normalize_os(""), "");
}

#[test]
fn supported_hosts_are_recorded_under_four_names() {
    let cases = [
        ("x86_64", "linux", "x86", "Linux"),
        ("x86_64", "macos", "x86", "MacOS"),
        ("aarch64", "linux", "arm", "Linux"),
        ("aarch64", "macos", "arm", "MacOS"),
    ];
    for (arch, os, recorded_arch, recorded_os) in cases {
        assert_eq!(
            host(arch, os).system_info(),
            SystemInfo { arch: recorded_arch.to_string(), os: recorded_os.to_string() }
        );
    }
}
