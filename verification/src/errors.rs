//! The resolver's error taxonomy. Every stage fails fast: an error is
//! propagated upward unchanged, since a build-time dependency resolution
//! step has no meaningful degraded mode.

use vstd::prelude::*;

verus! {

/// One error per failure mode of the resolution pipeline, so a caller can
/// tell "no internet" from "registry schema changed" from "disk full".
#[derive(Clone, Copy, Debug, PartialEq, Eq, Structural)]
pub enum DownloadError {
    /// The (OS, architecture, ABI) triple has no runtime identifier.
    UnsupportedPlatform,
    /// The registry's service index could not be reached.
    RegistryUnreachable,
    /// A registry response was not valid JSON of the expected shape.
    InvalidRegistryResponse,
    /// No resource in the service index carries the registration type tag.
    RegistryEndpointNotFound,
    /// A version string did not parse as a semantic version.
    InvalidVersionFormat,
    /// Every catalog entry is unlisted; there is no artifact to download.
    NoListedVersionFound,
    /// A catalog page's type discriminator matches no known tag.
    UnsupportedCatalogShape,
    /// The release archive could not be downloaded.
    DownloadFailed,
    /// The release archive could not be opened or an entry not read.
    ExtractionFailed,
    /// The destination directory could not be created or written.
    FilesystemError,
}

impl DownloadError {
    /// A short human-readable description, identifying the failed stage.
    pub fn describe(&self) -> (r: &'static str)
        ensures
            r@ == spec_describe(*self),
    {
        match self {
            DownloadError::UnsupportedPlatform => "platform not supported",
            DownloadError::RegistryUnreachable => "failed to reach the package registry",
            DownloadError::InvalidRegistryResponse => "failed to parse a registry response",
            DownloadError::RegistryEndpointNotFound => "registry query endpoint not found",
            DownloadError::InvalidVersionFormat => "invalid semantic version in registry data",
            DownloadError::NoListedVersionFound => "no listed release found",
            DownloadError::UnsupportedCatalogShape => "unsupported catalog page shape",
            DownloadError::DownloadFailed => "failed to download the release archive",
            DownloadError::ExtractionFailed => "failed to extract the release archive",
            DownloadError::FilesystemError => "failed to write to the destination directory",
        }
    }
}

/// The description `describe` returns for each error.
pub open spec fn spec_describe(e: DownloadError) -> Seq<char> {
    match e {
        DownloadError::UnsupportedPlatform => "platform not supported"@,
        DownloadError::RegistryUnreachable => "failed to reach the package registry"@,
        DownloadError::InvalidRegistryResponse => "failed to parse a registry response"@,
        DownloadError::RegistryEndpointNotFound => "registry query endpoint not found"@,
        DownloadError::InvalidVersionFormat => "invalid semantic version in registry data"@,
        DownloadError::NoListedVersionFound => "no listed release found"@,
        DownloadError::UnsupportedCatalogShape => "unsupported catalog page shape"@,
        DownloadError::DownloadFailed => "failed to download the release archive"@,
        DownloadError::ExtractionFailed => "failed to extract the release archive"@,
        DownloadError::FilesystemError => "failed to write to the destination directory"@,
    }
}

} // verus!
