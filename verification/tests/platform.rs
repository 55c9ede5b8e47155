use nethost_sys::platform::target_identifier;
use nethost_sys::{Abi, Arch, DownloadError, Os};

#[test]
fn supported_matrix_maps_to_identifiers() {
    let cases: Vec<(Os, Arch, Option<Abi>, &str)> = vec![
        (Os::Windows, Arch::X86, Some(Abi::Msvc), "win-x86"),
        (Os::Windows, Arch::X86_64, Some(Abi::Msvc), "win-x64"),
        (Os::Windows, Arch::Arm, None, "win-arm"),
        (Os::Windows, Arch::AArch64, None, "win-arm64"),
        (Os::Linux, Arch::X86_64, Some(Abi::Musl), "linux-musl-x64"),
        (Os::Linux, Arch::Arm, Some(Abi::Musl), "linux-musl-arm"),
        (Os::Linux, Arch::AArch64, Some(Abi::Musl), "linux-musl-arm64"),
        (Os::Linux, Arch::X86_64, None, "linux-x64"),
        (Os::Linux, Arch::Arm, None, "linux-arm"),
        (Os::Linux, Arch::AArch64, None, "linux-arm64"),
        (Os::MacOs, Arch::X86_64, None, "osx-x64"),
        (Os::MacOs, Arch::AArch64, None, "osx-arm64"),
    ];
    for (os, arch, abi, expected) in cases {
        let got = target_identifier(os, arch, abi).unwrap();
        assert_eq!(got, expected.to_string());
        assert!(!got.is_empty());
    }
}

#[test]
fn env_specific_rules_win_over_arch_rules() {
    // Windows ARM targets are ABI-agnostic; the MSVC rule is not needed.
    assert_eq!(
        target_identifier(Os::Windows, Arch::Arm, Some(Abi::Msvc)).unwrap(),
        "win-arm".to_string()
    );
    // A musl Linux target must not fall back to the glibc identifier.
    assert_eq!(
        target_identifier(Os::Linux, Arch::X86_64, Some(Abi::Musl)).unwrap(),
        "linux-musl-x64".to_string()
    );
    // Any other Linux environment takes the architecture-only rule.
    assert_eq!(
        target_identifier(Os::Linux, Arch::X86_64, Some(Abi::Gnu)).unwrap(),
        "linux-x64".to_string()
    );
}

#[test]
fn unsupported_triples_are_rejected() {
    let cases: Vec<(Os, Arch, Option<Abi>)> = vec![
        (Os::Windows, Arch::X86, None),
        (Os::Windows, Arch::X86, Some(Abi::Gnu)),
        (Os::Windows, Arch::X86_64, Some(Abi::Gnu)),
        (Os::MacOs, Arch::X86, None),
        (Os::MacOs, Arch::Arm, None),
        (Os::Linux, Arch::X86, None),
        (Os::Other, Arch::X86_64, None),
        (Os::Linux, Arch::Other, Some(Abi::Musl)),
    ];
    for (os, arch, abi) in cases {
        assert_eq!(
            target_identifier(os, arch, abi),
            Err(DownloadError::UnsupportedPlatform)
        );
    }
}

#[test]
fn error_descriptions_identify_the_failed_stage() {
    assert_eq!(
        DownloadError::UnsupportedPlatform.describe(),
        "platform not supported"
    );
    assert_eq!(
        DownloadError::NoListedVersionFound.describe(),
        "no listed release found"
    );
    let all = vec![
        DownloadError::UnsupportedPlatform,
        DownloadError::RegistryUnreachable,
        DownloadError::InvalidRegistryResponse,
        DownloadError::RegistryEndpointNotFound,
        DownloadError::InvalidVersionFormat,
        DownloadError::NoListedVersionFound,
        DownloadError::UnsupportedCatalogShape,
        DownloadError::DownloadFailed,
        DownloadError::ExtractionFailed,
        DownloadError::FilesystemError,
    ];
    for (i, a) in all.iter().enumerate() {
        assert!(!a.describe().is_empty());
        for b in all.iter().skip(i + 1) {
            assert_ne!(a.describe(), b.describe());
        }
    }
}
