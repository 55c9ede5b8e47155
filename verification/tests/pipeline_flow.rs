use std::io::{Cursor, Write};

use nethost_sys::{
    Abi, Action, Arch, CatalogEntry, CatalogPage, CatalogResponse, DownloadError, Event, Os,
    PageReference, Pipeline, Resource, State,
};
use zip::write::SimpleFileOptions;
use zip::ZipWriter;

fn make_zip(files: &[(&str, &[u8])]) -> Vec<u8> {
    let mut writer = ZipWriter::new(Cursor::new(Vec::new()));
    for (name, data) in files {
        writer.start_file(*name, SimpleFileOptions::default()).unwrap();
        writer.write_all(data).unwrap();
    }
    writer.finish().unwrap().into_inner()
}

fn fetch_url(action: Action) -> String {
    match action {
        Action::Fetch { url } => url,
        _ => panic!("expected a fetch action"),
    }
}

#[test]
fn populated_destination_short_circuits_without_fetching() {
    let mut p = Pipeline::new(Os::Windows, Arch::X86_64, Some(Abi::Msvc)).unwrap();
    assert_eq!(p.state, State::AwaitDestination);
    let action = p.advance(Event::DestinationChecked { populated: true });
    assert!(matches!(action, Action::AlreadyResolved));
    assert_eq!(p.state, State::Finished);
}

#[test]
fn unsupported_platform_never_starts_a_pipeline() {
    match Pipeline::new(Os::MacOs, Arch::X86, None) {
        Err(e) => assert_eq!(e, DownloadError::UnsupportedPlatform),
        Ok(_) => panic!("the triple is outside the supported matrix"),
    }
}

#[test]
fn end_to_end_mocked_registry() {
    let mut p = Pipeline::new(Os::Linux, Arch::X86_64, None).unwrap();

    let action = p.advance(Event::DestinationChecked { populated: false });
    assert_eq!(fetch_url(action), "https://api.nuget.org/v3/index.json".to_string());

    let resources = vec![
        Resource {
            url: "https://example.org/search".to_string(),
            res_type: "SearchQueryService".to_string(),
        },
        Resource {
            url: "https://example.org/reg/".to_string(),
            res_type: "RegistrationsBaseUrl".to_string(),
        },
    ];
    let action = p.advance(Event::ServiceIndexFetched { resources });
    assert_eq!(
        fetch_url(action),
        "https://example.org/reg/runtime.linux-x64.microsoft.netcore.dotnetapphost/index.json"
            .to_string()
    );

    let pages = vec![PageReference {
        url: "https://example.org/page1".to_string(),
        upper: "5.0.3".to_string(),
    }];
    let action = p.advance(Event::RegistrationIndexFetched { pages });
    assert_eq!(fetch_url(action), "https://example.org/page1".to_string());

    let response = CatalogResponse::Page(CatalogPage {
        entries: vec![
            CatalogEntry {
                listed: true,
                content_url: "https://example.org/pkg-5.0.3".to_string(),
                version: "5.0.3".to_string(),
            },
            CatalogEntry {
                listed: false,
                content_url: "https://example.org/pkg-5.0.4".to_string(),
                version: "5.0.4".to_string(),
            },
        ],
    });
    // 5.0.4 is newer but unlisted: the pipeline must pick 5.0.3
    let action = p.advance(Event::PageFetched { response });
    assert_eq!(fetch_url(action), "https://example.org/pkg-5.0.3".to_string());

    let data = make_zip(&[
        ("runtimes/linux-x64/native/libnethost.a", b"NETHOST-BYTES"),
        ("runtimes/linux-x64/native/readme.txt", b"unrelated"),
    ]);
    let action = p.advance(Event::ArchiveFetched { data });
    match action {
        Action::WriteFiles { files } => {
            assert_eq!(files.len(), 1);
            assert_eq!(files[0].name, b"libnethost.a".to_vec());
            assert_eq!(files[0].data, b"NETHOST-BYTES".to_vec());
        },
        _ => panic!("expected the extracted files"),
    }
    assert_eq!(p.state, State::Finished);
}

#[test]
fn a_missing_endpoint_aborts_the_pipeline() {
    let mut p = Pipeline::new(Os::Linux, Arch::Arm, Some(Abi::Musl)).unwrap();
    let _ = p.advance(Event::DestinationChecked { populated: false });
    let action = p.advance(Event::ServiceIndexFetched { resources: Vec::new() });
    match action {
        Action::Abort { error } => assert_eq!(error, DownloadError::RegistryEndpointNotFound),
        _ => panic!("expected an abort"),
    }
    assert_eq!(p.state, State::Failed);
}
