//! Zip archives in memory.
use vstd::prelude::*;

verus! {

/// `zip::ZipArchive`: an archive that is read through `R`. Opaque; what it holds
/// is told by `archive_bytes`.
#[verifier::external_type_specification]
#[verifier::external_body]
#[verifier::reject_recursive_types(R)]
pub struct ExZipArchive<R>(zip::ZipArchive<R>);

/// `std::io::Cursor`: a reader over something in memory. Opaque.
#[verifier::external_type_specification]
#[verifier::external_body]
#[verifier::reject_recursive_types(T)]
pub struct ExCursor<T>(std::io::Cursor<T>);

/// The bytes that an archive was opened on.
pub uninterp spec fn archive_bytes(archive: zip::ZipArchive<std::io::Cursor<Vec<u8>>>) -> Seq<u8>;

/// Why bytes cannot be opened as an archive, if they cannot.
pub uninterp spec fn archive_error(bytes: Seq<u8>) -> Option<Seq<char>>;

/// How many entries an archive has.
pub uninterp spec fn archive_size(bytes: Seq<u8>) -> nat;

/// The index of the entry of this name.
pub uninterp spec fn entry_index(bytes: Seq<u8>, name: Seq<char>) -> Option<nat>;

/// The name of an entry, or why the entry cannot be opened.
pub uninterp spec fn entry_name(bytes: Seq<u8>, index: nat) -> Result<Seq<char>, Seq<char>>;

/// What an entry that can be opened holds, or why it cannot be read.
pub uninterp spec fn entry_contents(bytes: Seq<u8>, index: nat) -> Result<Seq<u8>, Seq<char>>;

/// `zip::ZipArchive::new` on a cursor over the bytes: the archive, or the text of
/// the error.
#[verifier::external_body]
pub(crate) fn open_archive(bytes: Vec<u8>) -> (r: Result<
    zip::ZipArchive<std::io::Cursor<Vec<u8>>>,
    String,
>)
    ensures
        match r {
            Ok(archive) => archive_error(bytes@) is None && archive_bytes(archive) == bytes@,
            Err(error) => archive_error(bytes@) == Some(error@),
        },
{
    zip::ZipArchive::new(std::io::Cursor::new(bytes)).map_err(|error| error.to_string())
}

/// `zip::ZipArchive::len`: the number of entries.
#[verifier::external_body]
pub(crate) fn entry_count(archive: &zip::ZipArchive<std::io::Cursor<Vec<u8>>>) -> (r: usize)
    ensures
        r == archive_size(archive_bytes(*archive)),
{
    archive.len()
}

/// `zip::ZipArchive::index_for_name`: the index of the entry of this name, if
/// there is one.
#[verifier::external_body]
pub(crate) fn find_entry(
    archive: &zip::ZipArchive<std::io::Cursor<Vec<u8>>>,
    name: &str,
) -> (r: Option<usize>)
    ensures
        match r {
            Some(index) => entry_index(archive_bytes(*archive), name@) == Some(index as nat),
            None => entry_index(archive_bytes(*archive), name@) is None,
        },
{
    archive.index_for_name(name)
}

/// `zip::ZipArchive::by_index`: opens an entry, of which this hands out the name,
/// or the text of the error. Opening an entry changes nothing that the archive
/// holds.
#[verifier::external_body]
pub(crate) fn open_entry(
    archive: &mut zip::ZipArchive<std::io::Cursor<Vec<u8>>>,
    index: usize,
) -> (r: Result<String, String>)
    ensures
        archive_bytes(*final(archive)) == archive_bytes(*old(archive)),
        match r {
            Ok(name) => entry_name(archive_bytes(*old(archive)), index as nat) == Ok::<
                Seq<char>,
                Seq<char>,
            >(name@),
            Err(error) => entry_name(archive_bytes(*old(archive)), index as nat) == Err::<
                Seq<char>,
                Seq<char>,
            >(error@),
        },
{
    match archive.by_index(index) {
        Ok(entry) => Ok(entry.name().to_string()),
        Err(error) => Err(error.to_string()),
    }
}

/// `std::io::Read::read_to_end` of `zip::read::ZipFile`: everything that an entry
/// holds, or the text of the error. Reading an entry changes nothing that the
/// archive holds.
#[verifier::external_body]
pub(crate) fn read_entry(
    archive: &mut zip::ZipArchive<std::io::Cursor<Vec<u8>>>,
    index: usize,
) -> (r: Result<Vec<u8>, String>)
    ensures
        archive_bytes(*final(archive)) == archive_bytes(*old(archive)),
        match r {
            Ok(contents) => entry_contents(archive_bytes(*old(archive)), index as nat) == Ok::<
                Seq<u8>,
                Seq<char>,
            >(contents@),
            Err(error) => entry_contents(archive_bytes(*old(archive)), index as nat) == Err::<
                Seq<u8>,
                Seq<char>,
            >(error@),
        },
{
    let mut contents = Vec::new();
    match archive.by_index(index) {
        Ok(mut entry) => match std::io::Read::read_to_end(&mut entry, &mut contents) {
            Ok(_) => Ok(contents),
            Err(error) => Err(error.to_string()),
        },
        Err(error) => Err(error.to_string()),
    }
}

} // verus!
