//! The registry catalog: service-index resources, registration page
//! references, catalog pages and entries, and the decisions made over them —
//! endpoint discovery, query-URL composition, page-shape classification,
//! normalization of the two page shapes, and release selection.

use vstd::prelude::*;
use vstd::string::StringExecFns;

use crate::errors::DownloadError;
use crate::version::{
    parse_version, parsed_or_default, spec_parse_version, spec_version_le, spec_version_lt,
    version_lt, SemVer, Version,
};

verus! {

/// One resource of the registry's service index.
pub struct Resource {
    pub url: String,
    pub res_type: String,
}

/// The model of a resource.
pub ghost struct ResourceModel {
    pub url: Seq<char>,
    pub res_type: Seq<char>,
}

impl View for Resource {
    type V = ResourceModel;

    open spec fn view(&self) -> ResourceModel {
        ResourceModel { url: self.url@, res_type: self.res_type@ }
    }
}

/// One page reference of a package's registration index, carrying the
/// upper version bound of the page it points to.
pub struct PageReference {
    pub url: String,
    pub upper: String,
}

/// The model of a page reference.
pub ghost struct PageReferenceModel {
    pub url: Seq<char>,
    pub upper: Seq<char>,
}

impl View for PageReference {
    type V = PageReferenceModel;

    open spec fn view(&self) -> PageReferenceModel {
        PageReferenceModel { url: self.url@, upper: self.upper@ }
    }
}

/// One release of the package: its visibility flag, the URL of its content
/// archive, and its version string.
pub struct CatalogEntry {
    pub listed: bool,
    pub content_url: String,
    pub version: String,
}

/// The model of a catalog entry.
pub ghost struct EntryModel {
    pub listed: bool,
    pub content_url: Seq<char>,
    pub version: Seq<char>,
}

impl View for CatalogEntry {
    type V = EntryModel;

    open spec fn view(&self) -> EntryModel {
        EntryModel { listed: self.listed, content_url: self.content_url@, version: self.version@ }
    }
}

impl Clone for CatalogEntry {
    fn clone(&self) -> (r: Self)
        ensures
            r@ == self@,
    {
        CatalogEntry {
            listed: self.listed,
            content_url: self.content_url.clone(),
            version: self.version.clone(),
        }
    }
}

/// One catalog page: an ordered list of entries.
pub struct CatalogPage {
    pub entries: Vec<CatalogEntry>,
}

/// A catalog page response: either a root document embedding one or more
/// pages, or a single page embedding entries directly. Registries inline
/// everything into one page for small packages but paginate for large ones.
pub enum CatalogResponse {
    Root(Vec<CatalogPage>),
    Page(CatalogPage),
}

/// The type-discriminator field of a catalog page response, which may
/// appear as a single string or as an array of strings. `Invalid` stands
/// for a missing field or one of any other shape.
pub enum TypeTags {
    Single(String),
    Multiple(Vec<String>),
    Invalid,
}

/// The shape a catalog page response was classified as.
#[derive(Clone, Copy, Debug, PartialEq, Eq, Structural)]
pub enum CatalogShape {
    Root,
    Page,
}

/// The models of a sequence of entries.
pub open spec fn entry_models(v: Seq<CatalogEntry>) -> Seq<EntryModel> {
    Seq::new(v.len(), |i: int| v[i]@)
}

/// The models of a sequence of page references.
pub open spec fn page_ref_models(v: Seq<PageReference>) -> Seq<PageReferenceModel> {
    Seq::new(v.len(), |i: int| v[i]@)
}

/// The models of a page's entries.
pub open spec fn page_models(p: CatalogPage) -> Seq<EntryModel> {
    entry_models(p.entries@)
}

/// The entries of a sequence of pages, flattened in order.
pub open spec fn flatten_pages(pages: Seq<CatalogPage>) -> Seq<EntryModel>
    decreases pages.len(),
{
    if pages.len() == 0 {
        seq![]
    } else {
        page_models(pages[0]) + flatten_pages(pages.drop_first())
    }
}

/// The type tag of the resource that carries the registration base URL.
pub open spec fn registrations_tag() -> Seq<char> {
    "RegistrationsBaseUrl"@
}

/// The type tag of a page-shaped catalog response.
pub open spec fn page_tag() -> Seq<char> {
    "catalog:CatalogPage"@
}

/// The type tag of a root-shaped catalog response.
pub open spec fn root_tag() -> Seq<char> {
    "catalog:CatalogRoot"@
}

/// Returns the URL of the first service-index resource whose type tag is
/// `RegistrationsBaseUrl`; there is no fallback registry, so a missing
/// resource is fatal.
pub fn find_registrations_base_url(resources: &Vec<Resource>) -> (r: Result<
    String,
    DownloadError,
>)
    ensures
        match r {
            Ok(u) => exists|i: int|
                0 <= i < resources@.len() && resources@[i].res_type@ == registrations_tag()
                    && u@ == resources@[i].url@ && (forall|j: int|
                    0 <= j < i ==> resources@[j].res_type@ != registrations_tag()),
            Err(e) => e == DownloadError::RegistryEndpointNotFound && (forall|i: int|
                0 <= i < resources@.len() ==> resources@[i].res_type@ != registrations_tag()),
        },
{
    let tag: String = "RegistrationsBaseUrl".to_owned();
    let mut i: usize = 0;
    while i < resources.len()
        invariant
            i <= resources@.len(),
            tag@ == registrations_tag(),
            forall|j: int| 0 <= j < i ==> resources@[j].res_type@ != registrations_tag(),
        decreases resources@.len() - i,
    {
        if resources[i].res_type == tag {
            return Ok(resources[i].url.clone());
        }
        i = i + 1;
    }
    Err(DownloadError::RegistryEndpointNotFound)
}

/// The fixed path of a package's registration index under the registration
/// base URL, for the platform-specific `nethost` package of a target.
pub open spec fn spec_registration_index_url(base: Seq<char>, target: Seq<char>) -> Seq<char> {
    base + "runtime."@ + target + ".microsoft.netcore.dotnetapphost/index.json"@
}

/// Composes the registration index URL for a target's package.
pub fn registration_index_url(base: &str, target: &str) -> (r: String)
    ensures
        r@ == spec_registration_index_url(base@, target@),
{
    let mut u = base.to_owned();
    u.append("runtime.");
    u.append(target);
    u.append(".microsoft.netcore.dotnetapphost/index.json");
    u
}

/// The shape the type-discriminator tags select: the page tag wins first,
/// then the root tag; any other set of tags is unsupported.
pub open spec fn spec_classify(t: TypeTags) -> Option<CatalogShape> {
    match t {
        TypeTags::Single(s) => if s@ == page_tag() {
            Some(CatalogShape::Page)
        } else if s@ == root_tag() {
            Some(CatalogShape::Root)
        } else {
            None
        },
        TypeTags::Multiple(v) => if exists|i: int| 0 <= i < v@.len() && v@[i]@ == page_tag() {
            Some(CatalogShape::Page)
        } else if exists|i: int| 0 <= i < v@.len() && v@[i]@ == root_tag() {
            Some(CatalogShape::Root)
        } else {
            None
        },
        TypeTags::Invalid => None,
    }
}

/// Whether some string of `v` views to `tag`.
fn contains_tag(v: &Vec<String>, tag: &String) -> (r: bool)
    ensures
        r == exists|i: int| 0 <= i < v@.len() && v@[i]@ == tag@,
{
    let mut i: usize = 0;
    while i < v.len()
        invariant
            i <= v@.len(),
            forall|j: int| 0 <= j < i ==> v@[j]@ != tag@,
        decreases v@.len() - i,
    {
        if v[i] == *tag {
            return true;
        }
        i = i + 1;
    }
    false
}

/// Classifies a catalog page response by its type-discriminator tags.
/// Membership of either known tag value decides the variant; anything else
/// is a fatal error, not a silent default.
pub fn classify_catalog(tags: &TypeTags) -> (r: Result<CatalogShape, DownloadError>)
    ensures
        match r {
            Ok(s) => spec_classify(*tags) == Some(s),
            Err(e) => spec_classify(*tags) is None && e == DownloadError::UnsupportedCatalogShape,
        },
{
    let page: String = "catalog:CatalogPage".to_owned();
    let root: String = "catalog:CatalogRoot".to_owned();
    match tags {
        TypeTags::Single(s) => {
            if *s == page {
                Ok(CatalogShape::Page)
            } else if *s == root {
                Ok(CatalogShape::Root)
            } else {
                Err(DownloadError::UnsupportedCatalogShape)
            }
        },
        TypeTags::Multiple(v) => {
            if contains_tag(v, &page) {
                Ok(CatalogShape::Page)
            } else if contains_tag(v, &root) {
                Ok(CatalogShape::Root)
            } else {
                Err(DownloadError::UnsupportedCatalogShape)
            }
        },
        TypeTags::Invalid => Err(DownloadError::UnsupportedCatalogShape),
    }
}

/// The flat, ordered entry sequence a catalog response normalizes to,
/// whichever shape the registry chose.
pub open spec fn spec_normalize(r: CatalogResponse) -> Seq<EntryModel> {
    match r {
        CatalogResponse::Page(p) => page_models(p),
        CatalogResponse::Root(pages) => flatten_pages(pages@),
    }
}

/// Copies a list of entries.
fn clone_entries(v: &Vec<CatalogEntry>) -> (out: Vec<CatalogEntry>)
    ensures
        entry_models(out@) == entry_models(v@),
{
    let mut out: Vec<CatalogEntry> = Vec::new();
    let mut i: usize = 0;
    while i < v.len()
        invariant
            i <= v@.len(),
            out@.len() == i,
            forall|k: int| 0 <= k < i ==> out@[k]@ == v@[k]@,
        decreases v@.len() - i,
    {
        out.push(v[i].clone());
        i = i + 1;
    }
    proof {
        assert(entry_models(out@) =~= entry_models(v@));
    }
    proof {
        assert(entry_models(v@).take(v@.len() as int) =~= entry_models(v@));
    }
    out
}

/// Flattens a catalog response into a single ordered entry sequence. The
/// caller need not know whether the registry inlined or paginated.
pub fn normalize_catalog(r: &CatalogResponse) -> (out: Vec<CatalogEntry>)
    ensures
        entry_models(out@) == spec_normalize(*r),
{
    match r {
        CatalogResponse::Page(p) => clone_entries(&p.entries),
        CatalogResponse::Root(pages) => {
            let mut out: Vec<CatalogEntry> = Vec::new();
            let mut i: usize = 0;
            proof {
                assert(pages@.skip(0) =~= pages@);
                assert(entry_models(out@) + flatten_pages(pages@) =~~= flatten_pages(pages@));
            }
            while i < pages.len()
                invariant
                    i <= pages@.len(),
                    entry_models(out@) + flatten_pages(pages@.skip(i as int)) =~~= flatten_pages(
                        pages@,
                    ),
                decreases pages@.len() - i,
            {
                let ghost old_out = out@;
                let mut chunk = clone_entries(&pages[i].entries);
                proof {
                    assert(pages@.skip(i as int).drop_first() =~= pages@.skip(i + 1 as int));
                    assert(pages@.skip(i as int)[0] == pages@[i as int]);
                }
                out.append(&mut chunk);
                proof {
                    assert(entry_models(out@) =~~= entry_models(old_out) + page_models(
                        pages@[i as int],
                    ));
                }
                i = i + 1;
            }
            proof {
                assert(pages@.skip(pages@.len() as int) =~= Seq::<CatalogPage>::empty());
            }
            out
        },
    }
}

/// A root-shaped response and the page-shaped response holding the same
/// entries, already flattened, normalize to the same sequence, so the
/// same entry is selected from either.
pub proof fn lemma_normalize_shape_agnostic(root: CatalogResponse, flat: CatalogResponse)
    requires
        root is Root,
        flat is Page,
        page_models(flat->Page_0) == flatten_pages(root->Root_0@),
    ensures
        spec_normalize(root) == spec_normalize(flat),
        forall|i: int| entry_selected_at(spec_normalize(root), i) == entry_selected_at(
            spec_normalize(flat),
            i,
        ),
{
}

/// Whether any entry is listed.
pub open spec fn has_listed(es: Seq<EntryModel>) -> bool {
    exists|i: int| 0 <= i < es.len() && es[i].listed
}

/// Whether some listed entry's version string is not a valid semantic
/// version.
pub open spec fn any_listed_unparsable(es: Seq<EntryModel>) -> bool {
    exists|i: int|
        0 <= i < es.len() && es[i].listed && spec_parse_version(es[i].version) is None
}

/// The parsed version of the entry at `j`.
pub open spec fn entry_version(es: Seq<EntryModel>, j: int) -> SemVer {
    parsed_or_default(es[j].version)
}

/// The entry at `i` is the selected release: listed, of valid version, of
/// the greatest version among the listed entries, and the last entry of
/// that greatest version — the deterministic tie-break for a registry that
/// reports the same version twice.
pub open spec fn entry_selected_at(es: Seq<EntryModel>, i: int) -> bool {
    0 <= i < es.len() && es[i].listed && spec_parse_version(es[i].version) is Some && (forall|
        j: int,
    |
        0 <= j < es.len() && es[j].listed && spec_parse_version(es[j].version) is Some
            ==> spec_version_le(entry_version(es, j), entry_version(es, i))) && (forall|j: int|
        i < j < es.len() && es[j].listed && spec_parse_version(es[j].version) is Some
            ==> spec_version_lt(entry_version(es, j), entry_version(es, i)))
}

/// An unlisted entry is never the selected one, whatever its version.
pub proof fn lemma_unlisted_never_selected(es: Seq<EntryModel>, i: int, j: int)
    requires
        entry_selected_at(es, i),
        0 <= j < es.len(),
        !es[j].listed,
    ensures
        i != j,
{
}

/// Selects the release to download from the flattened entries: the listed
/// entry with the greatest semantic version. Unlisted releases are never
/// selected, even if numerically newer — the registry's soft-delete.
/// Returns the index of the selected entry.
pub fn select_entry(entries: &Vec<CatalogEntry>) -> (r: Result<usize, DownloadError>)
    ensures
        match r {
            Ok(i) => !any_listed_unparsable(entry_models(entries@)) && entry_selected_at(
                entry_models(entries@),
                i as int,
            ),
            Err(e) => (e == DownloadError::InvalidVersionFormat && any_listed_unparsable(
                entry_models(entries@),
            )) || (e == DownloadError::NoListedVersionFound && !any_listed_unparsable(
                entry_models(entries@),
            ) && !has_listed(entry_models(entries@))),
        },
{
    let ghost es = entry_models(entries@);
    let mut best: Option<(usize, Version)> = None;
    let mut i: usize = 0;
    while i < entries.len()
        invariant
            i <= entries@.len(),
            es == entry_models(entries@),
            forall|j: int|
                0 <= j < i && es[j].listed ==> spec_parse_version(es[j].version) is Some,
            match best {
                Some(b) => {
                    &&& (b.0 as int) < i
                    &&& es[b.0 as int].listed
                    &&& spec_parse_version(es[b.0 as int].version) == Some(b.1@)
                    &&& forall|j: int|
                        0 <= j < i && es[j].listed ==> spec_version_le(
                            entry_version(es, j),
                            b.1@,
                        )
                    &&& forall|j: int|
                        (b.0 as int) < j < i && es[j].listed ==> spec_version_lt(
                            entry_version(es, j),
                            b.1@,
                        )
                },
                None => forall|j: int| 0 <= j < i ==> !es[j].listed,
            },
        decreases entries@.len() - i,
    {
        if entries[i].listed {
            match parse_version(entries[i].version.as_str()) {
                None => {
                    proof {
                        assert((i as int) < es.len() && es[i as int].listed
                            && spec_parse_version(es[i as int].version) is None);
                        assert(any_listed_unparsable(es));
                    }
                    return Err(DownloadError::InvalidVersionFormat);
                },
                Some(v) => {
                    let replace: bool = match &best {
                        None => true,
                        Some(b) => !version_lt(&v, &b.1),
                    };
                    if replace {
                        proof {
                            if best is Some {
                                let b = best->Some_0;
                                crate::version::lemma_version_order_total(v@, b.1@);
                                assert forall|j: int|
                                    0 <= j < i + 1 && es[j].listed implies spec_version_le(
                                    entry_version(es, j),
                                    v@,
                                ) by {
                                    if j < i {
                                        crate::version::lemma_version_le_transitive(
                                            entry_version(es, j),
                                            b.1@,
                                            v@,
                                        );
                                    }
                                }
                            }
                        }
                        best = Some((i, v));
                    }
                },
            }
        }
        i = i + 1;
    }
    match best {
        Some(b) => Ok(b.0),
        None => Err(DownloadError::NoListedVersionFound),
    }
}

/// The reference at `i` points to the page to fetch: every reference's
/// upper bound is a valid version, `i`'s bound is the greatest, and `i` is
/// the last reference with that bound — the deterministic tie-break.
pub open spec fn page_ref_selected_at(ms: Seq<PageReferenceModel>, i: int) -> bool {
    &&& 0 <= i < ms.len()
    &&& forall|j: int| 0 <= j < ms.len() ==> spec_parse_version(ms[j].upper) is Some
    &&& forall|j: int|
        0 <= j < ms.len() ==> spec_version_le(
            parsed_or_default(ms[j].upper),
            parsed_or_default(ms[i].upper),
        )
    &&& forall|j: int|
        i < j < ms.len() ==> spec_version_lt(
            parsed_or_default(ms[j].upper),
            parsed_or_default(ms[i].upper),
        )
}

/// Selects the page reference whose upper version bound is greatest; page
/// references are not necessarily sorted, so every bound is inspected, and
/// every bound must be a valid semantic version. An empty reference list
/// means the registry returned no usable index. Returns the index of the
/// selected reference.
pub fn select_page_reference(pages: &Vec<PageReference>) -> (r: Result<usize, DownloadError>)
    ensures
        match r {
            Ok(i) => page_ref_selected_at(page_ref_models(pages@), i as int),
            Err(e) => (e == DownloadError::InvalidVersionFormat && exists|j: int|
                0 <= j < pages@.len() && spec_parse_version(
                    page_ref_models(pages@)[j].upper,
                ) is None) || (e == DownloadError::InvalidRegistryResponse && pages@.len() == 0),
        },
{
    let ghost ms = page_ref_models(pages@);
    if pages.len() == 0 {
        return Err(DownloadError::InvalidRegistryResponse);
    }
    let first = match parse_version(pages[0].upper.as_str()) {
        Some(v) => v,
        None => {
            proof {
                assert(spec_parse_version(ms[0].upper) is None);
            }
            return Err(DownloadError::InvalidVersionFormat);
        },
    };
    let mut best_i: usize = 0;
    let mut best_v: Version = first;
    let mut i: usize = 1;
    while i < pages.len()
        invariant
            1 <= i <= pages@.len(),
            ms == page_ref_models(pages@),
            (best_i as int) < i,
            spec_parse_version(ms[best_i as int].upper) == Some(best_v@),
            forall|j: int| 0 <= j < i ==> spec_parse_version(ms[j].upper) is Some,
            forall|j: int|
                0 <= j < i ==> spec_version_le(parsed_or_default(ms[j].upper), best_v@),
            forall|j: int|
                (best_i as int) < j < i ==> spec_version_lt(
                    parsed_or_default(ms[j].upper),
                    best_v@,
                ),
        decreases pages@.len() - i,
    {
        match parse_version(pages[i].upper.as_str()) {
            None => {
                proof {
                    assert(spec_parse_version(ms[i as int].upper) is None);
                }
                return Err(DownloadError::InvalidVersionFormat);
            },
            Some(v) => {
                if !version_lt(&v, &best_v) {
                    proof {
                        crate::version::lemma_version_order_total(v@, best_v@);
                        assert forall|j: int| 0 <= j < i + 1 implies spec_version_le(
                            parsed_or_default(ms[j].upper),
                            v@,
                        ) by {
                            if j < i {
                                crate::version::lemma_version_le_transitive(
                                    parsed_or_default(ms[j].upper),
                                    best_v@,
                                    v@,
                                );
                            }
                        }
                    }
                    best_i = i;
                    best_v = v;
                }
            },
        }
        i = i + 1;
    }
    Ok(best_i)
}

} // verus!
