//! Selective extraction of the release archive: every archive entry is
//! inspected, and an entry is kept exactly when its safe relative path lies
//! under the target's native runtime directory, its extension is on the
//! static-library / import-library / debug-symbol allow-list, and its base
//! name names the target library. Kept entries are flattened to their bare
//! file name; the archive's directory structure is discarded.
//!
//! The zip container itself is decoded by the `zip` crate behind trusted
//! wrappers; every decision about an entry is verified here.

use vstd::prelude::*;
use vstd::string::StrSliceExecFns;

use crate::errors::DownloadError;

verus! {

/// The entries of an opened archive, in index order. Per entry: whether its
/// header and reader can be opened at all, its safe relative path with the
/// components joined by `/` (`None` when the stored path is unsafe to
/// resolve, e.g. holds directory traversal), whether its contents
/// decompress cleanly, and those contents. The archive sits in an in-memory
/// buffer, so all four are functions of the archive value alone.
pub uninterp spec fn zip_entries(a: zip::ZipArchive<std::io::Cursor<Vec<u8>>>) -> Seq<
    (bool, Option<Seq<u8>>, bool, Seq<u8>),
>;

/// What `zip::ZipArchive::new` yields for a byte buffer: the entry table,
/// or `None` when the bytes are not a readable archive. The result depends
/// on the bytes alone.
pub uninterp spec fn zip_entries_of(data: Seq<u8>) -> Option<
    Seq<(bool, Option<Seq<u8>>, bool, Seq<u8>)>,
>;

#[verifier::external_type_specification]
#[verifier::external_body]
#[verifier::reject_recursive_types(R)]
pub struct ExZipArchive<R>(zip::ZipArchive<R>);

#[verifier::external_type_specification]
#[verifier::external_body]
#[verifier::reject_recursive_types(T)]
pub struct ExCursor<T>(std::io::Cursor<T>);

/// Relies on `zip::ZipArchive::new`: it parses the central directory of the
/// archive held in the byte buffer, a function of the bytes alone.
#[verifier::external_body]
fn open_archive(data: Vec<u8>) -> (r: Result<
    zip::ZipArchive<std::io::Cursor<Vec<u8>>>,
    DownloadError,
>)
    ensures
        match r {
            Ok(a) => zip_entries_of(data@) == Some(zip_entries(a)),
            Err(e) => e == DownloadError::ExtractionFailed && zip_entries_of(data@) is None,
        },
{
    match zip::ZipArchive::new(std::io::Cursor::new(data)) {
        Ok(a) => Ok(a),
        Err(_) => Err(DownloadError::ExtractionFailed),
    }
}

/// Relies on `zip::ZipArchive::len`: the number of entries in the archive.
#[verifier::external_body]
fn archive_len(a: &zip::ZipArchive<std::io::Cursor<Vec<u8>>>) -> (r: usize)
    ensures
        r == zip_entries(*a).len(),
{
    a.len()
}

/// Relies on `zip::ZipArchive::by_index` and `zip::read::ZipFile::enclosed_name`:
/// entry `i`'s safe relative path, its components joined by `/` whatever the
/// host's separator, or `None` for an unsafe stored path. `by_index` fails
/// exactly when the entry cannot be opened (the buffer is in memory, so that
/// is a function of the archive alone), and only seeks the underlying
/// reader: the entry table is unchanged.
#[verifier::external_body]
fn entry_name(a: &mut zip::ZipArchive<std::io::Cursor<Vec<u8>>>, i: usize) -> (r: Result<
    Option<Vec<u8>>,
    DownloadError,
>)
    requires
        i < zip_entries(*old(a)).len(),
    ensures
        zip_entries(*final(a)) == zip_entries(*old(a)),
        r is Ok <==> zip_entries(*old(a))[i as int].0,
        match r {
            Ok(n) => match n {
                Some(b) => zip_entries(*old(a))[i as int].1 == Some(b@),
                None => zip_entries(*old(a))[i as int].1 is None,
            },
            Err(err) => err == DownloadError::ExtractionFailed,
        },
{
    match a.by_index(i) {
        Ok(f) => Ok(f.enclosed_name().map(|p| {
            let parts: Vec<String> = p
                .components()
                .map(|c| c.as_os_str().to_string_lossy().into_owned())
                .collect();
            parts.join("/").into_bytes()
        })),
        Err(_) => Err(DownloadError::ExtractionFailed),
    }
}

/// Relies on `zip::ZipArchive::by_index` and `std::io::Read::read_to_end`
/// on the entry reader: entry `i`'s decompressed contents. Succeeds exactly
/// when the entry can be opened and its contents decompress cleanly — the
/// buffer is in memory, so both are functions of the archive alone. Only
/// the underlying reader is seeked; the entry table is unchanged.
#[verifier::external_body]
fn entry_data(a: &mut zip::ZipArchive<std::io::Cursor<Vec<u8>>>, i: usize) -> (r: Result<
    Vec<u8>,
    DownloadError,
>)
    requires
        i < zip_entries(*old(a)).len(),
    ensures
        zip_entries(*final(a)) == zip_entries(*old(a)),
        r is Ok <==> (zip_entries(*old(a))[i as int].0 && zip_entries(*old(a))[i as int].2),
        match r {
            Ok(d) => d@ == zip_entries(*old(a))[i as int].3,
            Err(err) => err == DownloadError::ExtractionFailed,
        },
{
    let mut file = match a.by_index(i) {
        Ok(f) => f,
        Err(_) => return Err(DownloadError::ExtractionFailed),
    };
    let mut data: Vec<u8> = Vec::new();
    match std::io::Read::read_to_end(&mut file, &mut data) {
        Ok(_) => Ok(data),
        Err(_) => Err(DownloadError::ExtractionFailed),
    }
}

/// The path separator inside archive entry names.
pub open spec fn slash() -> u8 {
    47
}

/// The byte separating a file name from its extension.
pub open spec fn dot_byte() -> u8 {
    46
}

/// The last index at which `b` occurs in `s`, or `-1` when it does not.
pub open spec fn last_index_of(s: Seq<u8>, b: u8) -> int
    decreases s.len(),
{
    if s.len() == 0 {
        -1
    } else if s[s.len() - 1] == b {
        s.len() - 1
    } else {
        last_index_of(s.drop_last(), b)
    }
}

/// The base file name of an entry path: the bytes after the last slash.
pub open spec fn base_name(name: Seq<u8>) -> Seq<u8> {
    name.skip(last_index_of(name, slash()) + 1)
}

/// The stem and extension of a base file name, split at the last dot; a
/// name without a dot, or whose only dot leads it, has no extension.
pub open spec fn ext_split(base: Seq<u8>) -> Option<(Seq<u8>, Seq<u8>)> {
    let d = last_index_of(base, dot_byte());
    if d > 0 {
        Some((base.take(d), base.skip(d + 1)))
    } else {
        None
    }
}

/// The directory every relevant entry lives under: `runtimes/<target>/native`.
pub open spec fn native_dir(target: Seq<u8>) -> Seq<u8> {
    vstd::utf8::encode_utf8("runtimes/"@) + target + vstd::utf8::encode_utf8("/native"@)
}

/// Whether an entry path starts with the target's native runtime directory,
/// component-wise: it is that directory, or continues below it.
pub open spec fn in_native_dir(name: Seq<u8>, target: Seq<u8>) -> bool {
    let p = native_dir(target);
    name == p || (name.len() > p.len() && name.take(p.len() as int) == p && name[p.len() as int]
        == slash())
}

/// Whether the entry's extension is a static library, an import library or
/// a debug-symbol file.
pub open spec fn allowed_extension(name: Seq<u8>) -> bool {
    match ext_split(base_name(name)) {
        Some(se) => se.1 == vstd::utf8::encode_utf8("a"@) || se.1 == vstd::utf8::encode_utf8(
            "lib"@,
        ) || se.1 == vstd::utf8::encode_utf8("pdb"@),
        None => false,
    }
}

/// Whether `needle` occurs in `hay`.
pub open spec fn contains_seq(hay: Seq<u8>, needle: Seq<u8>) -> bool {
    exists|k: int|
        0 <= k <= hay.len() - needle.len() && #[trigger] hay.subrange(k, k + needle.len())
            == needle
}

/// Whether the entry's stem names the target library.
pub open spec fn names_target_library(name: Seq<u8>) -> bool {
    match ext_split(base_name(name)) {
        Some(se) => contains_seq(se.0, vstd::utf8::encode_utf8("nethost"@)),
        None => false,
    }
}

/// Whether an entry survives the three-part extraction filter.
pub open spec fn spec_keep(name: Seq<u8>, target: Seq<u8>) -> bool {
    in_native_dir(name, target) && allowed_extension(name) && names_target_library(name)
}

/// The model of one extracted file.
pub ghost struct OutFileModel {
    pub name: Seq<u8>,
    pub data: Seq<u8>,
}

/// One extracted file: its bare file name and its contents.
pub struct OutFile {
    pub name: Vec<u8>,
    pub data: Vec<u8>,
}

impl View for OutFile {
    type V = OutFileModel;

    open spec fn view(&self) -> OutFileModel {
        OutFileModel { name: self.name@, data: self.data@ }
    }
}

/// The models of a sequence of extracted files.
pub open spec fn out_models(v: Seq<OutFile>) -> Seq<OutFileModel> {
    Seq::new(v.len(), |i: int| v[i]@)
}

/// Whether the filter keeps an entry: it has a safe path and the path
/// passes all three predicates.
pub open spec fn entry_kept(e: (bool, Option<Seq<u8>>, bool, Seq<u8>), target: Seq<u8>) -> bool {
    match e.1 {
        Some(name) => spec_keep(name, target),
        None => false,
    }
}

/// The files the filter keeps out of an entry table, in order, flattened to
/// their base names. Entries without a safe path are skipped, not fatal:
/// archives commonly hold unrelated metadata entries.
pub open spec fn spec_extract(
    entries: Seq<(bool, Option<Seq<u8>>, bool, Seq<u8>)>,
    target: Seq<u8>,
) -> Seq<OutFileModel>
    decreases entries.len(),
{
    if entries.len() == 0 {
        seq![]
    } else {
        let rest = spec_extract(entries.drop_first(), target);
        match entries[0].1 {
            Some(name) => if spec_keep(name, target) {
                seq![OutFileModel { name: base_name(name), data: entries[0].3 }] + rest
            } else {
                rest
            },
            None => rest,
        }
    }
}

/// Every entry of the table can be walked: each entry opens, and each kept
/// entry — the only ones that are decompressed — decompresses cleanly.
pub open spec fn all_entries_extractable(
    entries: Seq<(bool, Option<Seq<u8>>, bool, Seq<u8>)>,
    target: Seq<u8>,
) -> bool {
    forall|i: int|
        0 <= i < entries.len() ==> (#[trigger] entries[i]).0 && (entry_kept(entries[i], target)
            ==> entries[i].2)
}

/// Exactly when extraction of this archive buffer succeeds: the buffer is a
/// readable archive and every entry of it can be walked.
pub open spec fn spec_extract_ok(data: Seq<u8>, target: Seq<u8>) -> bool {
    match zip_entries_of(data) {
        Some(es) => all_entries_extractable(es, target),
        None => false,
    }
}

/// Extraction is entrywise: the files kept out of two entry runs in a row
/// are the files kept out of each, in order. So changing one archive entry
/// — say, to violate a single filter predicate — touches only that entry's
/// own contribution to the output and leaves every other entry's alone.
pub proof fn lemma_extract_concat(
    a: Seq<(bool, Option<Seq<u8>>, bool, Seq<u8>)>,
    b: Seq<(bool, Option<Seq<u8>>, bool, Seq<u8>)>,
    target: Seq<u8>,
)
    ensures
        spec_extract(a + b, target) == spec_extract(a, target) + spec_extract(b, target),
    decreases a.len(),
{
    if a.len() == 0 {
        assert(a + b =~= b);
        assert(spec_extract(a, target) + spec_extract(b, target) =~= spec_extract(b, target));
    } else {
        assert((a + b).drop_first() =~= a.drop_first() + b);
        assert((a + b)[0] == a[0]);
        lemma_extract_concat(a.drop_first(), b, target);
        assert(spec_extract(a + b, target) =~= spec_extract(a, target) + spec_extract(b, target));
    }
}

/// `last_index_of` is the position of the last occurrence.
proof fn lemma_last_index_at(s: Seq<u8>, b: u8, k: int)
    requires
        -1 <= k < s.len(),
        k >= 0 ==> s[k] == b,
        forall|j: int| k < j < s.len() ==> s[j] != b,
    ensures
        last_index_of(s, b) == k,
    decreases s.len(),
{
    if s.len() == 0 {
    } else if s[s.len() - 1] == b {
        assert(k == s.len() - 1);
    } else {
        assert(k < s.len() - 1);
        let t = s.drop_last();
        assert(forall|j: int| k < j < t.len() ==> t[j] == s[j] && t[j] != b);
        lemma_last_index_at(t, b, k);
    }
}

/// Finds the last occurrence of `b` in `s`, as an exclusive bound:
/// returns `i + 1` where `i` is the last index holding `b`, or `0`.
fn find_last_byte(s: &Vec<u8>, b: u8) -> (r: usize)
    ensures
        r == last_index_of(s@, b) + 1,
        r <= s@.len(),
{
    let mut i: usize = s.len();
    while i > 0
        invariant
            i <= s.len(),
            forall|j: int| i <= j < s@.len() ==> s@[j] != b,
        decreases i,
    {
        if s[i - 1] == b {
            proof {
                lemma_last_index_at(s@, b, i - 1);
            }
            return i;
        }
        i = i - 1;
    }
    proof {
        lemma_last_index_at(s@, b, -1);
    }
    0
}

/// Copies `s[from..to]` into a fresh vector.
fn copy_bytes(s: &Vec<u8>, from: usize, to: usize) -> (r: Vec<u8>)
    requires
        from <= to <= s.len(),
    ensures
        r@ == s@.subrange(from as int, to as int),
{
    let mut r: Vec<u8> = Vec::new();
    let mut i: usize = from;
    while i < to
        invariant
            from <= i <= to <= s.len(),
            r@ == s@.subrange(from as int, i as int),
        decreases to - i,
    {
        r.push(s[i]);
        proof {
            assert(r@ =~= s@.subrange(from as int, i + 1 as int));
        }
        i = i + 1;
    }
    r
}

/// Whether two byte vectors hold the same bytes.
fn bytes_eq(a: &Vec<u8>, b: &Vec<u8>) -> (r: bool)
    ensures
        r == (a@ == b@),
{
    if a.len() != b.len() {
        return false;
    }
    let mut i: usize = 0;
    while i < a.len()
        invariant
            i <= a@.len(),
            a@.len() == b@.len(),
            forall|j: int| 0 <= j < i ==> a@[j] == b@[j],
        decreases a@.len() - i,
    {
        if a[i] != b[i] {
            return false;
        }
        i = i + 1;
    }
    proof {
        assert(a@ =~= b@);
    }
    true
}

/// Whether `needle` occurs in `hay` starting at `k`.
fn matches_at(hay: &Vec<u8>, needle: &Vec<u8>, k: usize) -> (r: bool)
    requires
        k + needle.len() <= hay.len(),
    ensures
        r == (hay@.subrange(k as int, k + needle@.len()) == needle@),
{
    let hay_len = hay.len();
    let mut j: usize = 0;
    while j < needle.len()
        invariant
            j <= needle@.len(),
            k + needle@.len() <= hay@.len(),
            hay_len == hay@.len(),
            forall|l: int| 0 <= l < j ==> hay@[k + l] == needle@[l],
        decreases needle@.len() - j,
    {
        if hay[k + j] != needle[j] {
            proof {
                assert(hay@.subrange(k as int, k + needle@.len())[j as int] != needle@[j as int]);
            }
            return false;
        }
        j = j + 1;
    }
    proof {
        assert(hay@.subrange(k as int, k + needle@.len()) =~= needle@);
    }
    true
}

/// Whether `needle` occurs anywhere in `hay`.
fn contains_bytes(hay: &Vec<u8>, needle: &Vec<u8>) -> (r: bool)
    ensures
        r == contains_seq(hay@, needle@),
{
    if needle.len() > hay.len() {
        return false;
    }
    if needle.len() == 0 {
        proof {
            assert(hay@.subrange(0, 0 + needle@.len() as int) =~= needle@);
        }
        return true;
    }
    let mut k: usize = 0;
    while k <= hay.len() - needle.len()
        invariant
            1 <= needle@.len() <= hay@.len(),
            k <= hay@.len() - needle@.len() + 1,
            forall|l: int|
                0 <= l < k ==> #[trigger] hay@.subrange(l, l + needle@.len()) != needle@,
        decreases hay@.len() - k,
    {
        if matches_at(hay, needle, k) {
            return true;
        }
        k = k + 1;
    }
    false
}

/// Appends the bytes of `src` to `dst`.
fn append_bytes(dst: &mut Vec<u8>, src: &Vec<u8>)
    ensures
        final(dst)@ == old(dst)@ + src@,
{
    let mut i: usize = 0;
    proof {
        assert(dst@ =~= old(dst)@ + src@.take(0));
    }
    while i < src.len()
        invariant
            i <= src@.len(),
            dst@ == old(dst)@ + src@.take(i as int),
        decreases src@.len() - i,
    {
        dst.push(src[i]);
        proof {
            assert(dst@ =~= old(dst)@ + src@.take(i + 1 as int));
        }
        i = i + 1;
    }
    proof {
        assert(dst@ =~= old(dst)@ + src@);
    }
}

/// Applies the three-part filter to one entry path. Returns the entry's
/// bare file name exactly when the entry must be written: its path lies
/// under the target's native directory, its extension is allowed, and its
/// stem names the target library.
pub fn entry_output_name(name: &Vec<u8>, target_bytes: &Vec<u8>) -> (r: Option<Vec<u8>>)
    ensures
        (r is Some) == spec_keep(name@, target_bytes@),
        r matches Some(b) ==> b@ == base_name(name@),
{
    // The directory prefix: `runtimes/<target>/native`.
    let mut prefix: Vec<u8> = "runtimes/".as_bytes_vec();
    append_bytes(&mut prefix, target_bytes);
    let tail: Vec<u8> = "/native".as_bytes_vec();
    append_bytes(&mut prefix, &tail);
    proof {
        assert(prefix@ =~= native_dir(target_bytes@));
    }
    let prefix_ok: bool = if name.len() == prefix.len() {
        bytes_eq(name, &prefix)
    } else if name.len() > prefix.len() {
        let head = copy_bytes(name, 0, prefix.len());
        bytes_eq(&head, &prefix) && name[prefix.len()] == 47u8
    } else {
        false
    };
    if !prefix_ok {
        return None;
    }
    let base_from = find_last_byte(name, 47u8);
    let base = copy_bytes(name, base_from, name.len());
    proof {
        assert(base@ =~= base_name(name@));
    }
    let dot_from = find_last_byte(&base, 46u8);
    if dot_from <= 1 {
        // No dot, or a dot only in the leading position: no extension.
        return None;
    }
    let ext = copy_bytes(&base, dot_from, base.len());
    let ext_a: Vec<u8> = "a".as_bytes_vec();
    let ext_lib: Vec<u8> = "lib".as_bytes_vec();
    let ext_pdb: Vec<u8> = "pdb".as_bytes_vec();
    if !(bytes_eq(&ext, &ext_a) || bytes_eq(&ext, &ext_lib) || bytes_eq(&ext, &ext_pdb)) {
        return None;
    }
    let stem = copy_bytes(&base, 0, dot_from - 1);
    let needle: Vec<u8> = "nethost".as_bytes_vec();
    if !contains_bytes(&stem, &needle) {
        return None;
    }
    Some(base)
}

/// Opens the downloaded archive and extracts every entry the filter keeps,
/// flattened to its bare file name, in entry order, decompressing only the
/// kept entries. Succeeds exactly when the buffer is a readable archive
/// whose entries can all be walked; an unreadable archive or entry aborts
/// the extraction, since a partial artifact set would surface as a cryptic
/// link error far downstream.
pub fn extract_matching(data: Vec<u8>, target_bytes: &Vec<u8>) -> (r: Result<
    Vec<OutFile>,
    DownloadError,
>)
    ensures
        r is Ok <==> spec_extract_ok(data@, target_bytes@),
        match r {
            Ok(files) => zip_entries_of(data@) matches Some(es) && out_models(files@)
                == spec_extract(es, target_bytes@),
            Err(e) => e == DownloadError::ExtractionFailed,
        },
{
    let mut archive = match open_archive(data) {
        Ok(a) => a,
        Err(e) => {
            return Err(e);
        },
    };
    let ghost es = zip_entries(archive);
    let n = archive_len(&archive);
    let mut out: Vec<OutFile> = Vec::new();
    let mut i: usize = 0;
    proof {
        assert(es.skip(0) =~= es);
        assert(out_models(out@) + spec_extract(es, target_bytes@) =~= spec_extract(
            es,
            target_bytes@,
        ));
    }
    while i < n
        invariant
            i <= n,
            n == es.len(),
            es == zip_entries(archive),
            zip_entries_of(data@) == Some(es),
            forall|j: int|
                0 <= j < i ==> (#[trigger] es[j]).0 && (entry_kept(es[j], target_bytes@)
                    ==> es[j].2),
            out_models(out@) + spec_extract(es.skip(i as int), target_bytes@) =~= spec_extract(
                es,
                target_bytes@,
            ),
        decreases n - i,
    {
        let name = match entry_name(&mut archive, i) {
            Ok(n) => n,
            Err(e) => {
                proof {
                    assert(!es[i as int].0);
                    assert(!all_entries_extractable(es, target_bytes@));
                }
                return Err(e);
            },
        };
        proof {
            assert(es.skip(i as int).drop_first() =~= es.skip(i + 1 as int));
            assert(es.skip(i as int)[0] == es[i as int]);
        }
        let ghost old_out = out@;
        match name {
            Some(name) => {
                match entry_output_name(&name, target_bytes) {
                    Some(base) => {
                        let contents = match entry_data(&mut archive, i) {
                            Ok(d) => d,
                            Err(e) => {
                                proof {
                                    assert(entry_kept(es[i as int], target_bytes@));
                                    assert(!es[i as int].2);
                                    assert(!all_entries_extractable(es, target_bytes@));
                                }
                                return Err(e);
                            },
                        };
                        out.push(OutFile { name: base, data: contents });
                        proof {
                            assert(out_models(out@) =~= out_models(old_out).push(
                                OutFileModel {
                                    name: base_name(name@),
                                    data: es[i as int].3,
                                },
                            ));
                        }
                    },
                    None => {},
                }
            },
            None => {},
        }
        i = i + 1;
    }
    proof {
        assert(es.skip(es.len() as int) =~= Seq::<(bool, Option<Seq<u8>>, bool, Seq<u8>)>::empty());
    }
    Ok(out)
}

} // verus!
