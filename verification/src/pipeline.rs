//! The resolution pipeline as a state machine: every decision — when to
//! skip the whole run, which URL to fetch next, which release to take, what
//! to write — is made here and verified; the caller performs the network
//! and filesystem work the returned actions ask for and feeds the outcome
//! back in as the next event.
//!
//! The pipeline is strictly sequential: destination check, service index,
//! registration index, catalog page, archive. Every failure is fatal and
//! ends the machine in its failed state; there is no retry and no fallback.

use vstd::prelude::*;

use crate::catalog::{
    any_listed_unparsable, entry_models, entry_selected_at, find_registrations_base_url,
    has_listed, normalize_catalog, page_ref_models, page_ref_selected_at, registration_index_url,
    registrations_tag, select_entry, select_page_reference, spec_normalize,
    spec_registration_index_url, CatalogResponse, PageReference, Resource,
};
use crate::errors::DownloadError;
use crate::extract::{
    extract_matching, out_models, spec_extract, spec_extract_ok, zip_entries_of, OutFile,
};
use crate::platform::{spec_target_identifier, target_identifier, Abi, Arch, Os};
use crate::version::spec_parse_version;
use vstd::string::StrSliceExecFns;

verus! {

/// Where the pipeline stands: which outcome it is waiting for.
#[derive(Clone, Copy, Debug, PartialEq, Eq, Structural)]
pub enum State {
    AwaitDestination,
    AwaitServiceIndex,
    AwaitRegistrationIndex,
    AwaitPage,
    AwaitArchive,
    Finished,
    Failed,
}

/// The outcome of the work the caller was asked to do.
pub enum Event {
    /// Whether the destination directory exists and already holds an entry.
    DestinationChecked { populated: bool },
    /// The service index document, flattened to its resources.
    ServiceIndexFetched { resources: Vec<Resource> },
    /// The package's registration index, flattened to its page references.
    RegistrationIndexFetched { pages: Vec<PageReference> },
    /// The selected catalog page, in whichever of the two shapes it came.
    PageFetched { response: CatalogResponse },
    /// The raw bytes of the release archive.
    ArchiveFetched { data: Vec<u8> },
}

/// What the caller must do next. The caller's first step — checking the
/// destination directory — precedes every action: a fresh pipeline waits
/// for `DestinationChecked` before it asks for anything.
pub enum Action {
    /// Perform one GET request for this URL and report what came back.
    Fetch { url: String },
    /// Write each file into the destination directory and stop: the
    /// pipeline is done.
    WriteFiles { files: Vec<OutFile> },
    /// The destination is already populated: stop without any network call.
    AlreadyResolved,
    /// The pipeline failed; surface this error and stop.
    Abort { error: DownloadError },
}

/// The fixed, well-known URL of the registry's service index.
pub open spec fn spec_service_index_url() -> Seq<char> {
    "https://api.nuget.org/v3/index.json"@
}

/// The fixed, well-known URL of the registry's service index.
pub fn service_index_url() -> (r: String)
    ensures
        r@ == spec_service_index_url(),
{
    "https://api.nuget.org/v3/index.json".to_owned()
}

/// The resolution pipeline for one platform target.
pub struct Pipeline {
    pub target: String,
    pub target_bytes: Vec<u8>,
    pub state: State,
}

impl Pipeline {
    /// The target identifier and its bytes agree; established by `new` and
    /// kept by every step.
    pub open spec fn wf(self) -> bool {
        self.target_bytes@ == vstd::utf8::encode_utf8(self.target@)
    }

    /// Starts a pipeline for a platform triple. The caller's first step is
    /// to check the destination directory.
    pub fn new(os: Os, arch: Arch, abi: Option<Abi>) -> (r: Result<Pipeline, DownloadError>)
        ensures
            match r {
                Ok(p) => {
                    &&& spec_target_identifier(os, arch, abi) == Some(p.target@)
                    &&& p.wf()
                    &&& p.state is AwaitDestination
                },
                Err(e) => spec_target_identifier(os, arch, abi) is None
                    && e == DownloadError::UnsupportedPlatform,
            },
    {
        let target = match target_identifier(os, arch, abi) {
            Ok(t) => t,
            Err(e) => {
                return Err(e);
            },
        };
        let target_bytes = target.as_str().as_bytes_vec();
        Ok(Pipeline { target, target_bytes, state: State::AwaitDestination })
    }

    /// Whether the machine in state `s` is waiting for this event.
    pub open spec fn expects(s: State, e: Event) -> bool {
        match (s, e) {
            (State::AwaitDestination, Event::DestinationChecked { .. }) => true,
            (State::AwaitServiceIndex, Event::ServiceIndexFetched { .. }) => true,
            (State::AwaitRegistrationIndex, Event::RegistrationIndexFetched { .. }) => true,
            (State::AwaitPage, Event::PageFetched { .. }) => true,
            (State::AwaitArchive, Event::ArchiveFetched { .. }) => true,
            _ => false,
        }
    }

    /// Feeds the outcome of the last action in and decides the next action.
    ///
    /// A populated destination ends the run at once with no fetch — the
    /// idempotency guard. The service index yields the registration
    /// endpoint or a fatal error; the registration index yields the page
    /// with the greatest upper bound; the page yields the content URL of
    /// the greatest listed release; the archive yields the filtered files
    /// to write. Every stage error moves the machine to its failed state.
    pub fn advance(&mut self, event: Event) -> (a: Action)
        requires
            Self::expects(old(self).state, event),
            old(self).wf(),
        ensures
            final(self).target == old(self).target,
            final(self).target_bytes == old(self).target_bytes,
            final(self).wf(),
            match event {
                Event::DestinationChecked { populated } => if populated {
                    a is AlreadyResolved && final(self).state is Finished
                } else {
                    (a matches Action::Fetch { url } && url@ == spec_service_index_url())
                        && final(self).state is AwaitServiceIndex
                },
                Event::ServiceIndexFetched { resources } => {
                    ||| (a matches Action::Fetch { url } && final(self).state
                        is AwaitRegistrationIndex && exists|i: int|
                        0 <= i < resources@.len() && resources@[i].res_type@
                            == registrations_tag() && (forall|j: int|
                            0 <= j < i ==> resources@[j].res_type@ != registrations_tag())
                            && url@ == spec_registration_index_url(
                            resources@[i].url@,
                            old(self).target@,
                        ))
                    ||| (a matches Action::Abort { error } && error
                        == DownloadError::RegistryEndpointNotFound && final(self).state is Failed
                        && (forall|i: int|
                        0 <= i < resources@.len() ==> resources@[i].res_type@
                            != registrations_tag()))
                },
                Event::RegistrationIndexFetched { pages } => {
                    ||| (a matches Action::Fetch { url } && final(self).state is AwaitPage
                        && exists|i: int|
                        page_ref_selected_at(page_ref_models(pages@), i) && url@
                            == page_ref_models(pages@)[i].url)
                    ||| (a matches Action::Abort { error } && final(self).state is Failed && (
                    (error == DownloadError::InvalidVersionFormat && exists|j: int|
                        0 <= j < pages@.len() && spec_parse_version(
                            page_ref_models(pages@)[j].upper,
                        ) is None) || (error == DownloadError::InvalidRegistryResponse
                        && pages@.len() == 0)))
                },
                Event::PageFetched { response } => {
                    ||| (a matches Action::Fetch { url } && final(self).state is AwaitArchive
                        && exists|i: int|
                        entry_selected_at(spec_normalize(response), i) && url@ == spec_normalize(
                            response,
                        )[i].content_url)
                    ||| (a matches Action::Abort { error } && final(self).state is Failed && (
                    (error == DownloadError::InvalidVersionFormat && any_listed_unparsable(
                        spec_normalize(response),
                    )) || (error == DownloadError::NoListedVersionFound && !any_listed_unparsable(
                        spec_normalize(response),
                    ) && !has_listed(spec_normalize(response)))))
                },
                Event::ArchiveFetched { data } => if spec_extract_ok(
                    data@,
                    vstd::utf8::encode_utf8(old(self).target@),
                ) {
                    a matches Action::WriteFiles { files } && final(self).state is Finished
                        && zip_entries_of(data@) is Some && out_models(files@) == spec_extract(
                        zip_entries_of(data@)->Some_0,
                        vstd::utf8::encode_utf8(old(self).target@),
                    )
                } else {
                    a matches Action::Abort { error } && error == DownloadError::ExtractionFailed
                        && final(self).state is Failed
                },
            },
    {
        match event {
            Event::DestinationChecked { populated } => {
                if populated {
                    self.state = State::Finished;
                    Action::AlreadyResolved
                } else {
                    self.state = State::AwaitServiceIndex;
                    Action::Fetch { url: service_index_url() }
                }
            },
            Event::ServiceIndexFetched { resources } => {
                match find_registrations_base_url(&resources) {
                    Ok(base) => {
                        let url = registration_index_url(base.as_str(), self.target.as_str());
                        self.state = State::AwaitRegistrationIndex;
                        Action::Fetch { url }
                    },
                    Err(error) => {
                        self.state = State::Failed;
                        Action::Abort { error }
                    },
                }
            },
            Event::RegistrationIndexFetched { pages } => {
                match select_page_reference(&pages) {
                    Ok(i) => {
                        let url = pages[i].url.clone();
                        self.state = State::AwaitPage;
                        Action::Fetch { url }
                    },
                    Err(error) => {
                        self.state = State::Failed;
                        Action::Abort { error }
                    },
                }
            },
            Event::PageFetched { response } => {
                let entries = normalize_catalog(&response);
                match select_entry(&entries) {
                    Ok(i) => {
                        let url = entries[i].content_url.clone();
                        self.state = State::AwaitArchive;
                        Action::Fetch { url }
                    },
                    Err(error) => {
                        self.state = State::Failed;
                        Action::Abort { error }
                    },
                }
            },
            Event::ArchiveFetched { data } => {
                match extract_matching(data, &self.target_bytes) {
                    Ok(files) => {
                        self.state = State::Finished;
                        Action::WriteFiles { files }
                    },
                    Err(error) => {
                        self.state = State::Failed;
                        Action::Abort { error }
                    },
                }
            },
        }
    }
}

} // verus!
