use nethost_sys::catalog::{
    classify_catalog, find_registrations_base_url, normalize_catalog, registration_index_url,
    select_entry, select_page_reference,
};
use nethost_sys::{
    CatalogEntry, CatalogPage, CatalogResponse, CatalogShape, DownloadError, PageReference,
    Resource, TypeTags,
};

fn entry(listed: bool, content_url: &str, version: &str) -> CatalogEntry {
    CatalogEntry {
        listed,
        content_url: content_url.to_string(),
        version: version.to_string(),
    }
}

#[test]
fn endpoint_discovery_takes_first_matching_resource() {
    let resources = vec![
        Resource {
            url: "https://example.org/search".to_string(),
            res_type: "SearchQueryService".to_string(),
        },
        Resource {
            url: "https://example.org/reg-a/".to_string(),
            res_type: "RegistrationsBaseUrl".to_string(),
        },
        Resource {
            url: "https://example.org/reg-b/".to_string(),
            res_type: "RegistrationsBaseUrl".to_string(),
        },
    ];
    let url = find_registrations_base_url(&resources).unwrap();
    assert_eq!(url, "https://example.org/reg-a/".to_string());
}

#[test]
fn endpoint_discovery_fails_without_registration_resource() {
    let resources = vec![Resource {
        url: "https://example.org/search".to_string(),
        res_type: "SearchQueryService".to_string(),
    }];
    assert_eq!(
        find_registrations_base_url(&resources),
        Err(DownloadError::RegistryEndpointNotFound)
    );
}

#[test]
fn registration_index_url_is_composed_from_base_and_target() {
    let url = registration_index_url("https://example.org/reg/", "linux-x64");
    assert_eq!(
        url,
        "https://example.org/reg/runtime.linux-x64.microsoft.netcore.dotnetapphost/index.json"
            .to_string()
    );
}

#[test]
fn classification_reads_single_and_array_tags() {
    let single = TypeTags::Single("catalog:CatalogPage".to_string());
    assert_eq!(classify_catalog(&single), Ok(CatalogShape::Page));

    let array = TypeTags::Multiple(vec![
        "PackageRegistration".to_string(),
        "catalog:CatalogRoot".to_string(),
    ]);
    assert_eq!(classify_catalog(&array), Ok(CatalogShape::Root));

    // membership of the page tag wins over the root tag
    let both = TypeTags::Multiple(vec![
        "catalog:CatalogRoot".to_string(),
        "catalog:CatalogPage".to_string(),
    ]);
    assert_eq!(classify_catalog(&both), Ok(CatalogShape::Page));
}

#[test]
fn unknown_discriminators_are_fatal() {
    let unknown = TypeTags::Single("catalog:Unknown".to_string());
    assert_eq!(
        classify_catalog(&unknown),
        Err(DownloadError::UnsupportedCatalogShape)
    );
    let empty = TypeTags::Multiple(Vec::new());
    assert_eq!(
        classify_catalog(&empty),
        Err(DownloadError::UnsupportedCatalogShape)
    );
    assert_eq!(
        classify_catalog(&TypeTags::Invalid),
        Err(DownloadError::UnsupportedCatalogShape)
    );
}

#[test]
fn unlisted_higher_version_is_never_selected() {
    let entries = vec![
        entry(true, "https://example.org/a", "1.0.0"),
        entry(false, "https://example.org/b", "9.9.9"),
        entry(true, "https://example.org/c", "1.2.0"),
    ];
    let i = select_entry(&entries).unwrap();
    assert_eq!(i, 2);
    assert_eq!(entries[i].version, "1.2.0".to_string());
}

#[test]
fn prerelease_sorts_below_its_release_in_selection() {
    let entries = vec![
        entry(true, "https://example.org/a", "1.2.0-preview"),
        entry(true, "https://example.org/b", "1.2.0"),
        entry(true, "https://example.org/c", "1.0.0"),
    ];
    assert_eq!(select_entry(&entries).unwrap(), 1);
}

#[test]
fn equal_versions_tie_break_to_the_last_entry() {
    let entries = vec![
        entry(true, "https://example.org/a", "2.0.0"),
        entry(true, "https://example.org/b", "2.0.0"),
        entry(true, "https://example.org/c", "1.0.0"),
    ];
    assert_eq!(select_entry(&entries).unwrap(), 1);
}

#[test]
fn all_unlisted_is_fatal() {
    let entries = vec![
        entry(false, "https://example.org/a", "1.0.0"),
        entry(false, "https://example.org/b", "2.0.0"),
    ];
    assert_eq!(
        select_entry(&entries),
        Err(DownloadError::NoListedVersionFound)
    );
    assert_eq!(
        select_entry(&Vec::new()),
        Err(DownloadError::NoListedVersionFound)
    );
}

#[test]
fn invalid_listed_version_is_fatal() {
    let entries = vec![
        entry(true, "https://example.org/a", "1.0.0"),
        entry(true, "https://example.org/b", "not-a-version"),
    ];
    assert_eq!(
        select_entry(&entries),
        Err(DownloadError::InvalidVersionFormat)
    );
    // an unlisted entry's version is never parsed, so it cannot fail
    let entries = vec![
        entry(true, "https://example.org/a", "1.0.0"),
        entry(false, "https://example.org/b", "not-a-version"),
    ];
    assert_eq!(select_entry(&entries), Ok(0));
}

#[test]
fn page_reference_with_greatest_bound_wins_numerically() {
    let pages = vec![
        PageReference {
            url: "https://example.org/p1".to_string(),
            upper: "9.0.0".to_string(),
        },
        PageReference {
            url: "https://example.org/p2".to_string(),
            upper: "10.0.0".to_string(),
        },
        PageReference {
            url: "https://example.org/p3".to_string(),
            upper: "2.0.0".to_string(),
        },
    ];
    // textual comparison would put 9.0.0 first; semantic comparison must not
    assert_eq!(select_page_reference(&pages).unwrap(), 1);
}

#[test]
fn bad_page_bounds_and_empty_indexes_are_fatal() {
    let pages = vec![PageReference {
        url: "https://example.org/p1".to_string(),
        upper: "five".to_string(),
    }];
    assert_eq!(
        select_page_reference(&pages),
        Err(DownloadError::InvalidVersionFormat)
    );
    assert_eq!(
        select_page_reference(&Vec::new()),
        Err(DownloadError::InvalidRegistryResponse)
    );
}

#[test]
fn root_and_flattened_page_select_the_same_entry() {
    let page_one = vec![
        entry(true, "https://example.org/a", "1.0.0"),
        entry(false, "https://example.org/b", "3.0.0"),
    ];
    let page_two = vec![entry(true, "https://example.org/c", "2.0.0")];

    let root = CatalogResponse::Root(vec![
        CatalogPage { entries: page_one.clone() },
        CatalogPage { entries: page_two.clone() },
    ]);
    let mut flattened = page_one;
    flattened.extend(page_two);
    let page = CatalogResponse::Page(CatalogPage { entries: flattened });

    let from_root = normalize_catalog(&root);
    let from_page = normalize_catalog(&page);
    assert_eq!(from_root.len(), from_page.len());

    let i = select_entry(&from_root).unwrap();
    let j = select_entry(&from_page).unwrap();
    assert_eq!(i, j);
    assert_eq!(from_root[i].content_url, from_page[j].content_url);
    assert_eq!(from_root[i].content_url, "https://example.org/c".to_string());
}
