use std::io::{Cursor, Write};

use nethost_sys::extract::{entry_output_name, extract_matching};
use nethost_sys::DownloadError;
use zip::write::SimpleFileOptions;
use zip::ZipWriter;

fn name_for(path: &str, target: &str) -> Option<Vec<u8>> {
    entry_output_name(&path.as_bytes().to_vec(), &target.as_bytes().to_vec())
}

fn make_zip(files: &[(&str, &[u8])]) -> Vec<u8> {
    let mut writer = ZipWriter::new(Cursor::new(Vec::new()));
    for (name, data) in files {
        writer.start_file(*name, SimpleFileOptions::default()).unwrap();
        writer.write_all(data).unwrap();
    }
    writer.finish().unwrap().into_inner()
}

#[test]
fn filter_keeps_exactly_the_matching_entry() {
    let kept = name_for("runtimes/win-x64/native/libnethost.a", "win-x64");
    assert_eq!(kept, Some(b"libnethost.a".to_vec()));
    // nested entries are flattened to their base name
    let nested = name_for("runtimes/win-x64/native/sub/nethost.pdb", "win-x64");
    assert_eq!(nested, Some(b"nethost.pdb".to_vec()));
    // the directory entry itself has no file name to keep
    assert_eq!(name_for("runtimes/win-x64/native", "win-x64"), None);
}

#[test]
fn violating_the_prefix_alone_rejects_the_entry() {
    // correct extension and stem, wrong directory
    assert_eq!(name_for("ref/win-x64/native/libnethost.a", "win-x64"), None);
    assert_eq!(name_for("runtimes/win-x86/native/libnethost.a", "win-x64"), None);
    // a sibling directory that merely begins with the prefix text
    assert_eq!(
        name_for("runtimes/win-x64/native-extra/libnethost.a", "win-x64"),
        None
    );
}

#[test]
fn violating_the_extension_alone_rejects_the_entry() {
    assert_eq!(
        name_for("runtimes/win-x64/native/libnethost.dll", "win-x64"),
        None
    );
    // no extension at all
    assert_eq!(name_for("runtimes/win-x64/native/libnethost", "win-x64"), None);
    // a leading dot is not an extension separator
    assert_eq!(name_for("runtimes/win-x64/native/.a", "win-x64"), None);
    // all three allowed extensions pass
    assert!(name_for("runtimes/win-x64/native/libnethost.a", "win-x64").is_some());
    assert!(name_for("runtimes/win-x64/native/nethost.lib", "win-x64").is_some());
    assert!(name_for("runtimes/win-x64/native/nethost.pdb", "win-x64").is_some());
}

#[test]
fn violating_the_stem_alone_rejects_the_entry() {
    assert_eq!(name_for("runtimes/win-x64/native/readme.a", "win-x64"), None);
    // the marker must sit in the stem, not in the extension or directory
    assert_eq!(
        name_for("runtimes/win-x64/native/nethost-dir/other.lib", "win-x64"),
        None
    );
}

#[test]
fn extraction_writes_matching_entries_and_skips_the_rest() {
    let data = make_zip(&[
        ("runtimes/linux-x64/native/libnethost.a", b"STATIC-LIB"),
        ("runtimes/linux-x64/native/readme.txt", b"docs"),
        ("runtimes/win-x64/native/libnethost.a", b"WRONG-TARGET"),
        ("docs/nethost.a", b"WRONG-DIR"),
    ]);
    let files = extract_matching(data, &b"linux-x64".to_vec()).unwrap();
    assert_eq!(files.len(), 1);
    assert_eq!(files[0].name, b"libnethost.a".to_vec());
    assert_eq!(files[0].data, b"STATIC-LIB".to_vec());
}

#[test]
fn mutating_one_entry_leaves_the_others_untouched() {
    let base = make_zip(&[
        ("runtimes/linux-x64/native/libnethost.a", b"ONE"),
        ("runtimes/linux-x64/native/nethost.pdb", b"TWO"),
    ]);
    let files = extract_matching(base, &b"linux-x64".to_vec()).unwrap();
    assert_eq!(files.len(), 2);

    // break the second entry's extension; the first entry is unaffected
    let mutated = make_zip(&[
        ("runtimes/linux-x64/native/libnethost.a", b"ONE"),
        ("runtimes/linux-x64/native/nethost.txt", b"TWO"),
    ]);
    let files = extract_matching(mutated, &b"linux-x64".to_vec()).unwrap();
    assert_eq!(files.len(), 1);
    assert_eq!(files[0].name, b"libnethost.a".to_vec());
    assert_eq!(files[0].data, b"ONE".to_vec());
}

#[test]
fn an_archive_with_no_matching_entries_succeeds_with_nothing() {
    let data = make_zip(&[
        ("runtimes/linux-x64/native/readme.txt", b"docs"),
        ("docs/other.md", b"notes"),
    ]);
    let files = extract_matching(data, &b"linux-x64".to_vec()).unwrap();
    assert!(files.is_empty());
}

#[test]
fn an_unreadable_archive_is_fatal() {
    let not_a_zip = b"this is not an archive".to_vec();
    assert!(matches!(
        extract_matching(not_a_zip, &b"linux-x64".to_vec()),
        Err(DownloadError::ExtractionFailed)
    ));
}
