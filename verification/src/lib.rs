//! Build-time resolver for the `nethost` native library.
//!
//! Given a platform triple, the library maps it to a runtime identifier,
//! discovers the package registry's query endpoint, walks the package
//! catalog, selects the highest listed release by semantic-version
//! precedence, and filters the release archive down to the platform's
//! native library files. Network and filesystem work is left to the
//! caller; every decision the resolver makes is verified.

pub mod catalog;
pub mod errors;
pub mod extract;
pub mod pipeline;
pub mod platform;
pub mod version;

pub use catalog::{
    CatalogEntry, CatalogPage, CatalogResponse, CatalogShape, PageReference, Resource, TypeTags,
};
pub use errors::DownloadError;
pub use extract::OutFile;
pub use pipeline::{Action, Event, Pipeline, State};
pub use platform::{Abi, Arch, Os};
pub use version::Version;
