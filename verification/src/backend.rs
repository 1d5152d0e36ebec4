//! Archive backends: listing and unpacking ZIP and RAR containers.
//!
//! Each backend reads one container held in memory and yields its entries —
//! name and unpacked bytes — in the order the container stores them.  What a
//! given container holds is a function of its bytes alone, which the
//! uninterpreted functions [`zip_entries_of`] and [`rar_entries_of`] name;
//! the trusted wrappers below tie the crates' results to those names.

use crate::comic::ComicError;
use crate::providers::ArchiveKind;
use std::io::Write;
use tempfile::NamedTempFile;
use unrar::error::Code;
use unrar::error::UnrarError;
use unrar::Archive;
use vstd::prelude::*;

verus! {

/// The entries the ZIP reader lists in a container — each entry's name and
/// unpacked bytes, in central-directory order, entries sharing a name
/// collapsed into one — or `None` when the bytes are not a readable ZIP
/// container.
pub uninterp spec fn zip_entries_of(data: Seq<u8>) -> Option<Seq<(Seq<char>, Seq<u8>)>>;

/// The unpacked byte payloads of the entries a RAR container holds, in
/// archive order, or `None` when the bytes are not a readable RAR
/// container.  The entry *names* are deliberately not part of this name:
/// the unrar library decodes legacy entry names through the process locale,
/// so they are not a function of the container bytes alone and are reported
/// per call instead.
pub uninterp spec fn rar_entries_of(data: Seq<u8>) -> Option<Seq<Seq<u8>>>;

/// The backend for `kind` can list the entries of container `data`.
pub open spec fn listable(kind: ArchiveKind, data: Seq<u8>) -> bool {
    match kind {
        ArchiveKind::Zip => zip_entries_of(data) is Some,
        ArchiveKind::Rar => rar_entries_of(data) is Some,
    }
}

/// The name-and-bytes views of a list of entries.
pub open spec fn entry_views(v: Seq<(String, Vec<u8>)>) -> Seq<(Seq<char>, Seq<u8>)> {
    v.map_values(|e: (String, Vec<u8>)| (e.0@, e.1@))
}

/// The bytes-only views of a list of entries.
pub open spec fn data_views(v: Seq<(String, Vec<u8>)>) -> Seq<Seq<u8>> {
    v.map_values(|e: (String, Vec<u8>)| e.1@)
}

/// Relies on zip::ZipArchive: `new` parses the central directory of the
/// container bytes, `by_index` visits the entries the reader lists in
/// central-directory order (the reader keys entries by name, so entries
/// sharing a name collapse into one), and reading an entry yields its
/// unpacked bytes.  All of it reads the in-memory container only, and
/// entry names are decoded by a fixed table (CP437 or UTF-8), so success
/// and result are functions of the bytes alone.  A container that does not
/// parse reports `UnreadableArchive`; an entry that cannot be unpacked
/// reports `ExtractionFailed`.
#[verifier::external_body]
pub(crate) fn zip_entries(data: &[u8]) -> (r: Result<Vec<(String, Vec<u8>)>, ComicError>)
    ensures
        (r is Ok) == (zip_entries_of(data@) is Some),
        r matches Ok(v) ==> zip_entries_of(data@) == Some(entry_views(v@)),
        r matches Err(e) ==> (e == ComicError::UnreadableArchive || e
            == ComicError::ExtractionFailed),
{
    let cursor = std::io::Cursor::new(data);
    let mut archive = zip::ZipArchive::new(cursor).map_err(|_| ComicError::UnreadableArchive)?;
    let mut out: Vec<(String, Vec<u8>)> = Vec::new();
    for i in 0..archive.len() {
        let mut file = archive.by_index(i).map_err(|_| ComicError::ExtractionFailed)?;
        let name = file.name().to_string();
        let mut buf: Vec<u8> = Vec::new();
        std::io::Read::read_to_end(&mut file, &mut buf).map_err(|_| ComicError::ExtractionFailed)?;
        out.push((name, buf));
    }
    Ok(out)
}

/// Relies on unrar::Archive: `open_for_processing` parses the container,
/// `read_header` walks the entry headers in archive order, and `read`
/// unpacks one entry into memory.  The unrar library reads only from a
/// path, so the container bytes are first spooled to a fresh private
/// temporary file (tempfile::NamedTempFile), removed again when the
/// wrapper returns.  The unpacked payloads are a function of the container
/// bytes alone, which [`rar_entries_of`] names; the entry *names* are not
/// — the library decodes legacy names through the process locale — so the
/// contract says nothing of them beyond what each call returns.  Error
/// codes that report undecodable content (BadArchive, UnknownFormat,
/// BadData) map to `UnreadableArchive`; everything else — including a
/// failure to create or fill the temporary file — maps to
/// `ExtractionFailed`, of which nothing is claimed.
#[verifier::external_body]
pub(crate) fn rar_entries(data: &[u8]) -> (r: Result<Vec<(String, Vec<u8>)>, ComicError>)
    ensures
        r matches Ok(v) ==> rar_entries_of(data@) == Some(data_views(v@)),
        r matches Err(e) ==> ((e == ComicError::UnreadableArchive && rar_entries_of(data@) is None)
            || e == ComicError::ExtractionFailed),
{
    let bad = |e: UnrarError| match e.code {
        Code::BadArchive | Code::UnknownFormat | Code::BadData => ComicError::UnreadableArchive,
        _ => ComicError::ExtractionFailed,
    };
    let mut tf = NamedTempFile::new().map_err(|_| ComicError::ExtractionFailed)?;
    tf.write_all(data).map_err(|_| ComicError::ExtractionFailed)?;
    let mut archive = Archive::new(tf.path()).open_for_processing().map_err(bad)?;
    let mut out = Vec::new();
    while let Some(header) = archive.read_header().map_err(bad)? {
        let name = header.entry().filename.to_string_lossy().into_owned();
        let (bytes, rest) = header.read().map_err(|_| ComicError::ExtractionFailed)?;
        out.push((name, bytes));
        archive = rest;
    }
    Ok(out)
}

} // verus!
