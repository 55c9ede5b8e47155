//! Platform target mapping: from an (OS, architecture, ABI) triple to the
//! registry's runtime identifier. Pure computation; the triple itself is
//! detected by the build environment and handed in by the caller.

use vstd::prelude::*;

use crate::errors::DownloadError;

verus! {

/// Operating system of the build target. `Other` stands for every system
/// outside the supported matrix.
#[derive(Clone, Copy, Debug, PartialEq, Eq, Structural)]
pub enum Os {
    Windows,
    Linux,
    MacOs,
    Other,
}

/// CPU architecture of the build target. `Other` stands for every
/// architecture outside the supported matrix.
#[derive(Clone, Copy, Debug, PartialEq, Eq, Structural)]
pub enum Arch {
    X86,
    X86_64,
    Arm,
    AArch64,
    Other,
}

/// ABI / environment of the build target, where the target triple carries
/// one. `Other` stands for every environment outside the supported matrix.
#[derive(Clone, Copy, Debug, PartialEq, Eq, Structural)]
pub enum Abi {
    Msvc,
    Musl,
    Gnu,
    Other,
}

/// The runtime identifier for a platform triple, or `None` when the triple
/// is outside the supported matrix. Environment-specific rules come before
/// architecture-only rules for the same OS: x86 and x86-64 on Windows need
/// an MSVC ABI, and musl-based Linux targets get their own identifiers.
pub open spec fn spec_target_identifier(os: Os, arch: Arch, abi: Option<Abi>) -> Option<Seq<char>> {
    match (os, arch, abi) {
        (Os::Windows, Arch::X86, Some(Abi::Msvc)) => Some("win-x86"@),
        (Os::Windows, Arch::X86_64, Some(Abi::Msvc)) => Some("win-x64"@),
        (Os::Windows, Arch::Arm, _) => Some("win-arm"@),
        (Os::Windows, Arch::AArch64, _) => Some("win-arm64"@),
        (Os::Linux, Arch::X86_64, Some(Abi::Musl)) => Some("linux-musl-x64"@),
        (Os::Linux, Arch::Arm, Some(Abi::Musl)) => Some("linux-musl-arm"@),
        (Os::Linux, Arch::AArch64, Some(Abi::Musl)) => Some("linux-musl-arm64"@),
        (Os::Linux, Arch::X86_64, _) => Some("linux-x64"@),
        (Os::Linux, Arch::Arm, _) => Some("linux-arm"@),
        (Os::Linux, Arch::AArch64, _) => Some("linux-arm64"@),
        (Os::MacOs, Arch::X86_64, _) => Some("osx-x64"@),
        (Os::MacOs, Arch::AArch64, _) => Some("osx-arm64"@),
        _ => None,
    }
}

/// Maps a platform triple to its runtime identifier. An unmatched triple is
/// a hard failure, not a default guess: a wrong artifact would silently
/// corrupt the build.
pub fn target_identifier(os: Os, arch: Arch, abi: Option<Abi>) -> (r: Result<String, DownloadError>)
    ensures
        match r {
            Ok(s) => spec_target_identifier(os, arch, abi) == Some(s@),
            Err(e) => spec_target_identifier(os, arch, abi) is None
                && e == DownloadError::UnsupportedPlatform,
        },
{
    match (os, arch, abi) {
        (Os::Windows, Arch::X86, Some(Abi::Msvc)) => Ok("win-x86".to_owned()),
        (Os::Windows, Arch::X86_64, Some(Abi::Msvc)) => Ok("win-x64".to_owned()),
        (Os::Windows, Arch::Arm, _) => Ok("win-arm".to_owned()),
        (Os::Windows, Arch::AArch64, _) => Ok("win-arm64".to_owned()),
        (Os::Linux, Arch::X86_64, Some(Abi::Musl)) => Ok("linux-musl-x64".to_owned()),
        (Os::Linux, Arch::Arm, Some(Abi::Musl)) => Ok("linux-musl-arm".to_owned()),
        (Os::Linux, Arch::AArch64, Some(Abi::Musl)) => Ok("linux-musl-arm64".to_owned()),
        (Os::Linux, Arch::X86_64, _) => Ok("linux-x64".to_owned()),
        (Os::Linux, Arch::Arm, _) => Ok("linux-arm".to_owned()),
        (Os::Linux, Arch::AArch64, _) => Ok("linux-arm64".to_owned()),
        (Os::MacOs, Arch::X86_64, _) => Ok("osx-x64".to_owned()),
        (Os::MacOs, Arch::AArch64, _) => Ok("osx-arm64".to_owned()),
        _ => Err(DownloadError::UnsupportedPlatform),
    }
}

/// Every triple inside the supported matrix maps to a non-empty identifier.
pub proof fn lemma_target_identifier_nonempty(os: Os, arch: Arch, abi: Option<Abi>)
    ensures
        spec_target_identifier(os, arch, abi) matches Some(s) ==> s.len() > 0,
{
    reveal_strlit("win-x86");
    reveal_strlit("win-x64");
    reveal_strlit("win-arm");
    reveal_strlit("win-arm64");
    reveal_strlit("linux-musl-x64");
    reveal_strlit("linux-musl-arm");
    reveal_strlit("linux-musl-arm64");
    reveal_strlit("linux-x64");
    reveal_strlit("linux-arm");
    reveal_strlit("linux-arm64");
    reveal_strlit("osx-x64");
    reveal_strlit("osx-arm64");
}

} // verus!
