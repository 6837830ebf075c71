use std::io::Cursor;
use vstd::prelude::*;
use zip::result::ZipError;
use zip::ZipArchive;

use crate::error::PipelineError;

verus! {

/// An archive opened over bytes held in memory.
pub type MemArchive = ZipArchive<Cursor<Vec<u8>>>;

/// Declares `zip::ZipArchive`, whose values are carried opaquely; what one
/// holds is `zip_entries`.
#[verifier::external_type_specification]
#[verifier::external_body]
#[verifier::reject_recursive_types(R)]
pub struct ExZipArchive<R>(ZipArchive<R>);

/// Declares `std::io::Cursor`, the in-memory reader under an archive.
#[verifier::external_type_specification]
#[verifier::external_body]
#[verifier::reject_recursive_types(T)]
pub struct ExCursor<T>(Cursor<T>);

/// Declares `zip::result::ZipError`, which the wrappers return and verified
/// code maps to `PipelineError::InvalidArchive`.
#[verifier::external_type_specification]
#[verifier::external_body]
pub struct ExZipError(ZipError);

/// What an opened archive holds, in the order of the central directory:
/// each entry's stored name, and the bytes that reading the entry to its end
/// yields, or `None` where opening or reading the entry fails (encrypted,
/// unsupported method, corrupt data).
pub uninterp spec fn zip_entries(a: MemArchive) -> Seq<(Seq<char>, Option<Seq<u8>>)>;

/// How the archive format marks a directory entry: its name ends in a
/// separator.
pub open spec fn is_dir_name(name: Seq<char>) -> bool {
    name.len() > 0 && (name.last() == '/' || name.last() == '\\')
}

/// One entry read out of an archive.
#[derive(Debug)]
pub struct ArchiveEntry {
    /// The name stored in the archive, not yet sanitized.
    pub name: String,
    /// Whether the entry stands for a directory.
    pub is_dir: bool,
    /// The entry's decompressed bytes (empty for a directory).
    pub data: Vec<u8>,
}

impl ArchiveEntry {
    /// The entry as stored name, directory flag and content.
    pub open spec fn model(&self) -> (Seq<char>, bool, Seq<u8>) {
        (self.name@, self.is_dir, self.data@)
    }
}

/// The entries as the extraction sees them.
pub open spec fn entries_model(es: Seq<ArchiveEntry>) -> Seq<(Seq<char>, bool, Seq<u8>)> {
    es.map_values(|e: ArchiveEntry| e.model())
}

/// What `ZipArchive::new` makes of some bytes: `None` where it refuses
/// them, else the entries of the archive it opens (as in `zip_entries`).
pub uninterp spec fn archive_contents(bytes: Seq<u8>) -> Option<
    Seq<(Seq<char>, Option<Seq<u8>>)>,
>;

/// Whether every stored entry can be read.
pub open spec fn all_readable(stored: Seq<(Seq<char>, Option<Seq<u8>>)>) -> bool {
    forall|i: int| 0 <= i < stored.len() ==> (#[trigger] stored[i]).1 is Some
}

/// Whether the bytes are an archive whose every entry can be read.
pub open spec fn archive_reads(bytes: Seq<u8>) -> bool {
    &&& archive_contents(bytes) is Some
    &&& all_readable(archive_contents(bytes)->Some_0)
}

/// The bytes read out of an entry (none where it cannot be read).
pub open spec fn data_of(d: Option<Seq<u8>>) -> Seq<u8> {
    match d {
        Some(b) => b,
        None => Seq::empty(),
    }
}

/// The stored entries as extraction sees them, each flagged as a directory
/// exactly when its name says so.
pub open spec fn stored_model(stored: Seq<(Seq<char>, Option<Seq<u8>>)>) -> Seq<
    (Seq<char>, bool, Seq<u8>),
> {
    stored.map_values(|x: (Seq<char>, Option<Seq<u8>>)| (x.0, is_dir_name(x.0), data_of(x.1)))
}

/// The entries of the archive held in `bytes` (none where it is no archive).
pub open spec fn archive_model(bytes: Seq<u8>) -> Seq<(Seq<char>, bool, Seq<u8>)> {
    match archive_contents(bytes) {
        Some(stored) => stored_model(stored),
        None => Seq::empty(),
    }
}

/// Relies on `zip::ZipArchive::new`: reads the central directory of the
/// bytes, or fails. Both the outcome and the entries of the archive it opens
/// depend on the bytes alone.
#[verifier::external_body]
fn open_archive(bytes: Vec<u8>) -> (r: Result<MemArchive, ZipError>)
    ensures
        r is Ok <==> archive_contents(bytes@) is Some,
        r matches Ok(a) ==> archive_contents(bytes@) == Some(zip_entries(a)),
{
    ZipArchive::new(Cursor::new(bytes))
}

/// Relies on `zip::ZipArchive::len`: the number of entries.
#[verifier::external_body]
fn entry_count(a: &MemArchive) -> (r: usize)
    ensures
        r == zip_entries(*a).len(),
{
    a.len()
}

/// Relies on `zip::ZipArchive::by_index`, `ZipFile::name`, `ZipFile::is_dir`
/// and reading the `ZipFile` to its end: the entry at `i`, whose directory
/// flag is whether its name ends in a separator. Reading moves the
/// underlying cursor only; the entries stay as they were.
#[verifier::external_body]
fn read_entry(a: &mut MemArchive, i: usize) -> (r: Result<ArchiveEntry, ZipError>)
    requires
        i < zip_entries(*old(a)).len(),
    ensures
        zip_entries(*final(a)) == zip_entries(*old(a)),
        r is Ok <==> zip_entries(*old(a))[i as int].1 is Some,
        r matches Ok(e) ==> e.name@ == zip_entries(*old(a))[i as int].0 && Some(e.data@)
            == zip_entries(*old(a))[i as int].1 && e.is_dir == is_dir_name(e.name@),
{
    let mut file = a.by_index(i)?;
    let mut data = Vec::new();
    std::io::Read::read_to_end(&mut file, &mut data)?;
    Ok(ArchiveEntry { name: file.name().to_string(), is_dir: file.is_dir(), data })
}

/// Reads every entry of an opened archive, in stored order. Any entry that
/// cannot be read makes the whole archive invalid.
pub fn read_entries(a: &mut MemArchive) -> (r: Result<Vec<ArchiveEntry>, PipelineError>)
    ensures
        zip_entries(*final(a)) == zip_entries(*old(a)),
        r is Ok <==> all_readable(zip_entries(*old(a))),
        r matches Ok(es) ==> entries_model(es@) == stored_model(zip_entries(*old(a))),
        r matches Err(e) ==> e == PipelineError::InvalidArchive,
{
    let ghost stored = zip_entries(*old(a));
    let n = entry_count(a);
    let mut out: Vec<ArchiveEntry> = Vec::new();
    let mut i: usize = 0;
    while i < n
        invariant
            stored == zip_entries(*old(a)),
            n == stored.len(),
            i <= n,
            zip_entries(*a) == stored,
            entries_model(out@) == stored_model(stored.take(i as int)),
            forall|k: int| 0 <= k < i ==> (#[trigger] stored[k]).1 is Some,
        decreases n - i,
    {
        let res = read_entry(a, i);
        match res {
            Ok(e) => {
                let ghost before = out@;
                out.push(e);
                assert(entries_model(out@) =~= entries_model(before).push(e.model()));
                assert(stored_model(stored.take(i + 1)) =~= stored_model(stored.take(i as int)).push(
                    (stored[i as int].0, is_dir_name(stored[i as int].0), data_of(stored[i as int].1)),
                ));
            },
            Err(_) => {
                assert(!all_readable(stored));
                return Err(PipelineError::InvalidArchive);
            },
        }
        i = i + 1;
    }
    assert(stored.take(n as int) =~= stored);
    Ok(out)
}

/// Opens the bytes of a downloaded file as an archive and reads its entries.
/// Bytes that are no archive, or an entry that cannot be read, give
/// `InvalidArchive`.
pub fn read_archive(bytes: Vec<u8>) -> (r: Result<Vec<ArchiveEntry>, PipelineError>)
    ensures
        r is Ok <==> archive_reads(bytes@),
        r matches Err(e) ==> e == PipelineError::InvalidArchive,
        r matches Ok(es) ==> entries_model(es@) == archive_model(bytes@),
{
    match open_archive(bytes) {
        Ok(mut a) => read_entries(&mut a),
        Err(_) => Err(PipelineError::InvalidArchive),
    }
}

} // verus!
