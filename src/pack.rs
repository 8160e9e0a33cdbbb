//! Repacking the working tree into a zip container held in memory.
use std::io::Write;
use vstd::prelude::*;

use crate::paths::{extension, extension_dot, file_name, file_name_start, lemma_last_index_bounds};

verus! {

/// A zip writer into an in-memory buffer, kept whole behind the functions
/// below.
#[verifier::external_body]
pub struct ZipSink {
    writer: zip::ZipWriter<std::io::Cursor<Vec<u8>>>,
}

#[verifier::external_type_specification]
#[verifier::external_body]
pub struct ExFileOptions(zip::write::FileOptions);

#[verifier::external_type_specification]
#[verifier::external_body]
pub struct ExZipError(zip::result::ZipError);

#[verifier::external_type_specification]
#[verifier::external_body]
pub struct ExIoError(std::io::Error);

/// How an entry's data is kept in the container.
#[derive(PartialEq, Eq, Structural, Debug, Clone, Copy)]
pub enum Storage {
    /// As is: for data that is already compressed.
    Stored,
    /// With the container's standard compression.
    Deflated,
}

/// One node of the working tree, named by its path relative to the root.
pub struct TreeEntry {
    pub path: String,
    pub is_dir: bool,
    pub data: Vec<u8>,
}

/// A failure while writing the container.
pub enum PackError {
    Zip(zip::result::ZipError),
    Io(std::io::Error),
}

/// `c` is the lower-case letter `l` or its upper-case form, for the letters
/// that the compressed image extensions use (b, e, g, j, n, p, w); any other
/// `l` matches only itself.
pub open spec fn same_letter(c: char, l: char) -> bool {
    c == l || (l == 'b' && c == 'B') || (l == 'e' && c == 'E') || (l == 'g' && c == 'G') || (l
        == 'j' && c == 'J') || (l == 'n' && c == 'N') || (l == 'p' && c == 'P') || (l == 'w' && c
        == 'W')
}

/// `s` spells `word` (lower case) in any case.
pub open spec fn spells(s: Seq<char>, word: Seq<char>) -> bool {
    s.len() == word.len() && forall|i: int| 0 <= i < s.len() ==> same_letter(s[i], word[i])
}

/// An extension of an already compressed image format.
pub open spec fn is_image_extension(e: Seq<char>) -> bool {
    spells(e, seq!['j', 'p', 'g']) || spells(e, seq!['j', 'p', 'e', 'g']) || spells(
        e,
        seq!['p', 'n', 'g'],
    ) || spells(e, seq!['w', 'e', 'b', 'p'])
}

/// Storage of a file entry: as is for compressed images, else deflated.
pub open spec fn storage_for(p: Seq<char>) -> Storage {
    if is_image_extension(extension(p)) {
        Storage::Stored
    } else {
        Storage::Deflated
    }
}

/// A directory entry's name: the path with a trailing slash, unless it
/// already ends in a separator.
pub open spec fn dir_entry_name(n: Seq<char>) -> Seq<char> {
    if n.len() > 0 && (n.last() == '/' || n.last() == '\\') {
        n
    } else {
        n.push('/')
    }
}

/// One entry of a container: its name, whether it is a directory entry,
/// whether its data is stored as is (else deflated), and its data.
pub type EntryRecord = (Seq<char>, bool, bool, Seq<u8>);

/// The container entry that a tree node becomes: a directory entry, stored
/// and empty, or a file entry with the node's data, stored as `get_options`
/// decides.
pub open spec fn record_of(e: TreeEntry) -> EntryRecord {
    if e.is_dir {
        (dir_entry_name(e.path@), true, true, Seq::empty())
    } else {
        (e.path@, false, storage_for(e.path@) == Storage::Stored, e.data@)
    }
}

/// The container entries that a sequence of tree nodes becomes, in order.
pub open spec fn records_of(es: Seq<TreeEntry>) -> Seq<EntryRecord> {
    es.map_values(|e: TreeEntry| record_of(e))
}

/// The entries started in a zip writer, in order.
pub uninterp spec fn zip_entries(w: ZipSink) -> Seq<EntryRecord>;

/// The bytes of the finished container holding these entries. The writer
/// puts nothing else in: permissions and timestamp are the same fixed
/// values for every entry.
pub uninterp spec fn zip_bytes(es: Seq<(Seq<char>, bool, bool, Seq<u8>)>) -> Seq<u8>;

/// Relies on zip::ZipWriter::new: a writer over an empty in-memory buffer,
/// with no entry yet.
#[verifier::external_body]
fn new_zip_writer() -> (r: ZipSink)
    ensures
        zip_entries(r) == Seq::<EntryRecord>::empty(),
{
    ZipSink { writer: zip::ZipWriter::new(std::io::Cursor::new(Vec::new())) }
}

/// Relies on zip::ZipWriter::start_file, with FileOptions::default (deflate)
/// or its compression_method set to Stored: on success a file entry of that
/// name and method, with no data yet, follows the earlier ones.
#[verifier::external_body]
fn start_file(w: &mut ZipSink, name: &str, storage: Storage) -> (r: Result<(), zip::result::ZipError>)
    ensures
        r is Ok ==> zip_entries(*final(w)) == zip_entries(*old(w)).push(
            (name@, false, storage == Storage::Stored, Seq::empty()),
        ),
{
    let options = match storage {
        Storage::Stored => zip::write::FileOptions::default().compression_method(zip::CompressionMethod::Stored),
        Storage::Deflated => zip::write::FileOptions::default(),
    };
    w.writer.start_file(name, options)
}

/// Relies on zip::ZipWriter::add_directory with FileOptions::default: on
/// success a stored, empty directory entry follows the earlier ones, its
/// name ending in a slash (one is appended unless the name ends in '/' or
/// '\').
#[verifier::external_body]
fn add_directory(w: &mut ZipSink, name: &str) -> (r: Result<(), zip::result::ZipError>)
    ensures
        r is Ok ==> zip_entries(*final(w)) == zip_entries(*old(w)).push(
            (dir_entry_name(name@), true, true, Seq::empty()),
        ),
{
    w.writer.add_directory(name, zip::write::FileOptions::default())
}

/// The entries with `d` following the data of the last one.
pub open spec fn with_more_data(es: Seq<EntryRecord>, d: Seq<u8>) -> Seq<EntryRecord> {
    let last = es.last();
    es.update(es.len() - 1, (last.0, last.1, last.2, last.3 + d))
}

/// Relies on the io::Write impl of zip::ZipWriter (write_all): with a file
/// entry just started and nothing written to it yet, on success the data is
/// that entry's data; no entry is added or removed.
#[verifier::external_body]
fn write_data(w: &mut ZipSink, data: &[u8]) -> (r: Result<(), std::io::Error>)
    requires
        zip_entries(*old(w)).len() > 0,
        !zip_entries(*old(w)).last().1,
        zip_entries(*old(w)).last().3.len() == 0,
    ensures
        r is Ok ==> zip_entries(*final(w)) == with_more_data(zip_entries(*old(w)), data@),
{
    w.writer.write_all(data)
}

/// Relies on zip::ZipWriter::finish: writes the central directory and hands
/// back the buffer, here its bytes: the container of the entries written.
#[verifier::external_body]
fn finish_zip(w: &mut ZipSink) -> (r: Result<Vec<u8>, zip::result::ZipError>)
    ensures
        r matches Ok(b) ==> b@ == zip_bytes(zip_entries(*old(w))),
{
    match w.writer.finish() {
        Ok(cursor) => Ok(cursor.into_inner()),
        Err(e) => Err(e),
    }
}

/// `c` is the lower-case letter `l` in either case, for the letters of the
/// compressed image extensions.
fn letter_matches(c: char, l: char) -> (r: bool)
    ensures
        r == same_letter(c, l),
{
    c == l || (l == 'b' && c == 'B') || (l == 'e' && c == 'E') || (l == 'g' && c == 'G') || (l
        == 'j' && c == 'J') || (l == 'n' && c == 'N') || (l == 'p' && c == 'P') || (l == 'w' && c
        == 'W')
}

/// Whether `path[from..]` spells `word` in any case.
fn tail_spells(path: &str, from: usize, word: &str) -> (r: bool)
    requires
        from <= path@.len(),
    ensures
        r == spells(path@.subrange(from as int, path@.len() as int), word@),
{
    let n = path.unicode_len();
    let k = word.unicode_len();
    if n - from != k {
        return false;
    }
    let ghost tail = path@.subrange(from as int, n as int);
    let mut i: usize = 0;
    while i < k
        invariant
            n == path@.len(),
            k == word@.len(),
            from + k == n,
            i <= k,
            tail == path@.subrange(from as int, n as int),
            forall|j: int| 0 <= j < i ==> same_letter(tail[j], word@[j]),
        decreases k - i,
    {
        if !letter_matches(path.get_char(from + i), word.get_char(i)) {
            assert(!same_letter(tail[i as int], word@[i as int]));
            return false;
        }
        i = i + 1;
    }
    true
}

/// The storage of a file at `path`: stored as is when its extension (in any
/// case) is jpg, jpeg, png or webp, deflated otherwise.
pub fn get_options(path: &str) -> (r: Storage)
    ensures
        r == storage_for(path@),
{
    // bounds the length by usize, so that an index plus one fits
    let _n: usize = path.unicode_len();
    match extension_dot(path) {
        Some(d) => {
            proof {
                lemma_last_index_bounds(path@, '/');
            }
            let ghost e = path@.subrange(d + 1, path@.len() as int);
            assert(e =~= file_name(path@).subrange(d + 1 - file_name_start(path@), file_name(path@).len() as int));
            assert(e =~= extension(path@));
            proof {
                reveal_strlit("jpg");
                reveal_strlit("jpeg");
                reveal_strlit("png");
                reveal_strlit("webp");
            }
            if tail_spells(path, d + 1, "jpg") || tail_spells(path, d + 1, "jpeg") || tail_spells(
                path,
                d + 1,
                "png",
            ) || tail_spells(path, d + 1, "webp") {
                Storage::Stored
            } else {
                Storage::Deflated
            }
        },
        None => {
            assert(extension(path@).len() == 0);
            Storage::Deflated
        },
    }
}

/// Appends the entries of the tree, in the order given, to a zip writer:
/// directories as directory entries, files with their data, stored or
/// deflated by `get_options`.
pub fn write_entries(w: &mut ZipSink, entries: &Vec<TreeEntry>) -> (r: Result<(), PackError>)
    ensures
        r is Ok ==> zip_entries(*final(w)) == zip_entries(*old(w)) + records_of(entries@),
{
    let mut i: usize = 0;
    while i < entries.len()
        invariant
            i <= entries@.len(),
            zip_entries(*w) == zip_entries(*old(w)) + records_of(entries@.take(i as int)),
        decreases entries@.len() - i,
    {
        let e = &entries[i];
        let ghost before = zip_entries(*w);
        if e.is_dir {
            match add_directory(w, e.path.as_str()) {
                Ok(()) => {},
                Err(err) => {
                    return Err(PackError::Zip(err));
                },
            }
        } else {
            let storage = get_options(e.path.as_str());
            match start_file(w, e.path.as_str(), storage) {
                Ok(()) => {},
                Err(err) => {
                    return Err(PackError::Zip(err));
                },
            }
            let ghost started = zip_entries(*w);
            match write_data(w, e.data.as_slice()) {
                Ok(()) => {
                    assert(zip_entries(*w) =~= before.push(record_of(entries@[i as int])));
                },
                Err(err) => {
                    return Err(PackError::Io(err));
                },
            }
        }
        assert(zip_entries(*w) == before.push(record_of(entries@[i as int])));
        assert(records_of(entries@.take(i + 1)) =~= records_of(entries@.take(i as int)).push(
            record_of(entries@[i as int]),
        ));
        i = i + 1;
    }
    assert(entries@.take(i as int) =~= entries@);
    Ok(())
}

/// Packs the tree, its nodes in the order given, into the bytes of a zip
/// container: one entry per node, as `record_of` gives it.
pub fn zip(entries: &Vec<TreeEntry>) -> (r: Result<Vec<u8>, PackError>)
    ensures
        r matches Ok(b) ==> b@ == zip_bytes(records_of(entries@)),
{
    let mut w = new_zip_writer();
    match write_entries(&mut w, entries) {
        Ok(()) => {},
        Err(e) => {
            return Err(e);
        },
    }
    assert(zip_entries(w) =~= records_of(entries@));
    match finish_zip(&mut w) {
        Ok(bytes) => Ok(bytes),
        Err(e) => Err(PackError::Zip(e)),
    }
}

/// Repacking keeps the tree: each node becomes one entry, in order, whose
/// name is the node's relative path (with the directory slash taken off)
/// and whose kind is the node's; a file entry holds the file's data, stored
/// as is exactly when its extension names a compressed image format.
pub proof fn lemma_repack_keeps_paths(es: Seq<TreeEntry>)
    requires
        forall|i: int|
            0 <= i < es.len() ==> es[i].path@.len() > 0 && es[i].path@.last() != '/'
                && es[i].path@.last() != '\\',
    ensures
        records_of(es).len() == es.len(),
        forall|i: int|
            0 <= i < es.len() ==> {
                let (name, is_dir, stored, data) = #[trigger] records_of(es)[i];
                &&& is_dir == es[i].is_dir
                &&& is_dir ==> name == es[i].path@.push('/') && data.len() == 0
                &&& !is_dir ==> name == es[i].path@ && data == es[i].data@ && stored
                    == is_image_extension(extension(es[i].path@))
            },
{
}

/// Packing is deterministic: two trees with the same nodes in the same
/// order give the same container, entry names, order, methods and data
/// included.
pub proof fn lemma_repack_deterministic(a: Seq<TreeEntry>, b: Seq<TreeEntry>)
    requires
        a.len() == b.len(),
        forall|i: int|
            0 <= i < a.len() ==> a[i].path@ == b[i].path@ && a[i].is_dir == b[i].is_dir
                && a[i].data@ == b[i].data@,
    ensures
        zip_bytes(records_of(a)) == zip_bytes(records_of(b)),
{
    assert(records_of(a) =~= records_of(b));
}

/// How many entries the zip reader finds in a container's bytes, or none
/// when it does not take them as a container.
pub uninterp spec fn zip_read_count(b: Seq<u8>) -> Option<nat>;

/// Relies on zip::ZipArchive::new and ZipArchive::len: reads the central
/// directory of the bytes and counts its entries; the outcome depends on the
/// bytes alone.
#[verifier::external_body]
fn archive_file_count(bytes: &[u8]) -> (r: Result<usize, zip::result::ZipError>)
    ensures
        r is Ok == zip_read_count(bytes@) is Some,
        r matches Ok(n) ==> zip_read_count(bytes@) == Some(n as nat),
{
    match zip::ZipArchive::new(std::io::Cursor::new(bytes)) {
        Ok(archive) => Ok(archive.len()),
        Err(e) => Err(e),
    }
}

/// Number of entries in the zip container held in `bytes`, or the reader's
/// error for bytes it does not take as a container.
pub fn get_file_count(bytes: &[u8]) -> (r: Result<usize, PackError>)
    ensures
        r is Ok == zip_read_count(bytes@) is Some,
        r matches Ok(n) ==> zip_read_count(bytes@) == Some(n as nat),
{
    match archive_file_count(bytes) {
        Ok(n) => Ok(n),
        Err(e) => Err(PackError::Zip(e)),
    }
}

} // verus!
