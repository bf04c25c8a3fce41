//! Trusted boundary to the zip crate: declarations of its reader type, names
//! for what an archive's central directory lists and decides, and thin
//! wrappers around the calls the verified code makes.
use crate::archive::all_entries_safe;
use crate::archive::no_duplicate_file_paths;
use vstd::prelude::*;

verus! {

#[verifier::external_type_specification]
#[verifier::external_body]
#[verifier::reject_recursive_types(T)]
pub struct ExCursor<T>(std::io::Cursor<T>);

#[verifier::external_type_specification]
#[verifier::external_body]
#[verifier::reject_recursive_types(R)]
pub struct ExZipArchive<R>(zip::ZipArchive<R>);

/// An open zip archive reading from an in-memory byte buffer.
pub type ZipReader = zip::ZipArchive<std::io::Cursor<Vec<u8>>>;

/// Whether the bytes parse as a zip central directory. Over an in-memory
/// buffer the parse reads nothing but the bytes, so this is a function of
/// them alone.
pub uninterp spec fn zip_parses(bytes: Seq<u8>) -> bool;

/// The entry names the parsed archive serves, in index order: a function of
/// the archive bytes alone. A raw name its central directory lists twice is
/// served once.
pub uninterp spec fn zip_entries_of(bytes: Seq<u8>) -> Seq<Seq<char>>;

/// Whether entry `i` of the archive bytes can be served: its local header is
/// readable and it needs no password and no unsupported compression method.
/// All of that is recorded in the bytes, so this too is a function of them
/// alone.
pub uninterp spec fn zip_entry_ok(bytes: Seq<u8>, i: int) -> bool;

/// The entry names an open reader serves, in index order.
pub uninterp spec fn reader_entries(z: ZipReader) -> Seq<Seq<char>>;

/// Whether an open reader can serve entry `i`.
pub uninterp spec fn reader_entry_ok(z: ZipReader, i: int) -> bool;

/// Whether every entry of the archive bytes can be served.
pub open spec fn all_entries_servable(bytes: Seq<u8>) -> bool {
    forall|i: int| 0 <= i < zip_entries_of(bytes).len() ==> zip_entry_ok(bytes, i)
}

/// Relies on zip::ZipArchive::new: parses the central directory of the given
/// archive bytes, succeeding exactly when they parse as one; on success the
/// reader serves exactly the entries of those bytes, and can serve each
/// entry exactly when the bytes say so. On failure the parse error's message
/// is returned.
#[verifier::external_body]
pub(crate) fn zip_open(bytes: &Vec<u8>) -> (r: Result<ZipReader, String>)
    ensures
        r is Ok <==> zip_parses(bytes@),
        r matches Ok(z) ==> reader_entries(z) == zip_entries_of(bytes@) && (forall|j: int|
            #[trigger] reader_entry_ok(z, j) == zip_entry_ok(bytes@, j)),
{
    match zip::ZipArchive::new(std::io::Cursor::new(bytes.clone())) {
        Ok(z) => Ok(z),
        Err(e) => Err(e.to_string()),
    }
}

/// Relies on zip::ZipArchive::len: the number of entries in the archive.
#[verifier::external_body]
pub(crate) fn zip_len(z: &ZipReader) -> (n: usize)
    ensures
        n == reader_entries(*z).len(),
{
    z.len()
}

/// Relies on zip::ZipArchive::by_index: the stored name of entry `i`. It
/// fails exactly when the entry cannot be served (a password demand, an
/// unreadable local header, an unsupported compression method), and alters
/// neither the entry list nor what can be served.
#[verifier::external_body]
pub(crate) fn zip_entry_name(z: &mut ZipReader, i: usize) -> (r: Result<String, String>)
    requires
        i < reader_entries(*old(z)).len(),
    ensures
        reader_entries(*final(z)) == reader_entries(*old(z)),
        forall|j: int| #[trigger] reader_entry_ok(*final(z), j) == reader_entry_ok(*old(z), j),
        r is Ok <==> reader_entry_ok(*old(z), i as int),
        r matches Ok(name) ==> name@ == reader_entries(*old(z))[i as int],
{
    match z.by_index(i) {
        Ok(f) => Ok(f.name().to_string()),
        Err(e) => Err(e.to_string()),
    }
}

/// Relies on zip::ZipArchive::extract: materializes every entry below the
/// destination directory (created if absent), sanitizing each entry path,
/// creating parent directories and applying stored unix permission bits. A
/// failure may leave a partial extraction behind. In builds with debug
/// assertions the call asserts that no two file entries land on the same
/// output path, so the wrapper demands safely resolving names with pairwise
/// distinct landing paths; every admitted archive then yields a returned
/// result on every outcome.
#[verifier::external_body]
pub(crate) fn zip_extract_all(z: &mut ZipReader, dest: &str) -> (r: Result<(), String>)
    requires
        all_entries_safe(reader_entries(*old(z))),
        no_duplicate_file_paths(reader_entries(*old(z))),
    ensures
        reader_entries(*final(z)) == reader_entries(*old(z)),
{
    match z.extract(dest) {
        Ok(()) => Ok(()),
        Err(e) => Err(e.to_string()),
    }
}

} // verus!
