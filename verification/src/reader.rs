//! The archive reader: the entries of a tar stream, their listing, and the
//! plan by which they are restored to disk.

use std::io::Read;
use vstd::prelude::*;
use crate::codec::{bzip2_decoded, gzip_decoded, open_archive, Archive};
use crate::error::ArchiveError;
use crate::kind::{archive_type_of, detect_archive_type, ArchiveType};
use crate::path::names;

verus! {

/// One entry of a tar stream.
#[derive(Debug, PartialEq, Eq)]
pub struct ArchiveEntry {
    /// The path stored for the entry.
    pub path: String,
    /// Whether the entry stands for a directory.
    pub is_dir: bool,
    /// The bytes of the entry; none for a directory.
    pub content: Vec<u8>,
}

/// An entry as contracts see it.
pub struct EntryView {
    pub path: Seq<char>,
    pub is_dir: bool,
    pub content: Seq<u8>,
}

impl View for ArchiveEntry {
    type V = EntryView;

    open spec fn view(&self) -> EntryView {
        EntryView { path: self.path@, is_dir: self.is_dir, content: self.content@ }
    }
}

/// The views of a list of entries.
pub open spec fn entry_views(entries: Seq<ArchiveEntry>) -> Seq<EntryView> {
    Seq::new(entries.len(), |i: int| entries[i]@)
}

/// The paths of a list of entries.
pub open spec fn paths_of(entries: Seq<EntryView>) -> Seq<Seq<char>> {
    Seq::new(entries.len(), |i: int| entries[i].path)
}

/// What `tar` reads from the stream `image`: the entries up to the end of
/// the stream or to the first that it cannot read, and whether it reached the
/// end.
pub uninterp spec fn tar_scanned(image: Seq<u8>) -> (Seq<EntryView>, bool);

/// Walks `tar::Archive::entries` over `image` and copies each entry out:
/// its path (`Entry::path_bytes`, with U+FFFD for bytes that are no UTF-8),
/// whether its type is directory, and its bytes, read to the end.
///
/// Trusted: what comes out depends on the bytes of `image` alone, and is
/// what `tar_scanned` names. The walk stops at the first error of the
/// iterator or of a read; the flag says that there was none. The loop
/// stands here because an entry borrows the archive it came from.
#[verifier::external_body]
pub(crate) fn scan_tar(image: &[u8]) -> (scan: (Vec<ArchiveEntry>, bool))
    ensures
        entry_views(scan.0@) == tar_scanned(image@).0,
        scan.1 == tar_scanned(image@).1,
{
    let mut found = Vec::new();
    let mut archive = tar::Archive::new(image);
    let mut walk = || -> std::io::Result<()> {
        for entry in archive.entries()? {
            let mut entry = entry?;
            let path = String::from_utf8_lossy(&entry.path_bytes()).into_owned();
            let is_dir = entry.header().entry_type().is_dir();
            let mut content = Vec::new();
            entry.read_to_end(&mut content)?;
            found.push(ArchiveEntry { path, is_dir, content });
        }
        Ok(())
    };
    let intact = walk().is_ok();
    (found, intact)
}

/// The paths of the entries of an archive, with the failure that ended the
/// reading, if one did.
#[derive(Debug, PartialEq, Eq)]
pub struct Listing {
    /// The paths read, in the order of the stream.
    pub paths: Vec<String>,
    /// Why the reading stopped early; `None` where it reached the end.
    pub failure: Option<ArchiveError>,
}

/// The failure that a scan ends in: none where the stream was read to its
/// end.
pub open spec fn scan_failure(intact: bool) -> Option<ArchiveError> {
    if intact {
        None
    } else {
        Some(ArchiveError::MalformedArchive)
    }
}

/// Whether `listing` lists the entries `entries` of a scan that ended as
/// `intact` says.
pub open spec fn lists(listing: Listing, entries: Seq<EntryView>, intact: bool) -> bool {
    names(listing.paths@) == paths_of(entries) && listing.failure == scan_failure(intact)
}

/// Whether `listing` is what listing gives when the decoder answered
/// `decoded`.
pub open spec fn listed_as(listing: Listing, decoded: Option<Seq<u8>>) -> bool {
    match decoded {
        Some(image) => lists(listing, tar_scanned(image).0, tar_scanned(image).1),
        None => listing.paths@.len() == 0 && listing.failure == Some(ArchiveError::MalformedStream),
    }
}

/// Lists the paths of `entries`, in their order.
pub fn list_paths(entries: &Vec<ArchiveEntry>, intact: bool) -> (listing: Listing)
    ensures
        lists(listing, entry_views(entries@), intact),
{
    let mut paths: Vec<String> = Vec::new();
    let mut i: usize = 0;
    while i < entries.len()
        invariant
            i <= entries.len(),
            paths@.len() == i,
            names(paths@) == paths_of(entry_views(entries@)).take(i as int),
        decreases entries.len() - i,
    {
        let path = entries[i].path.clone();
        paths.push(path);
        i += 1;
    }
    assert(names(paths@) =~= paths_of(entry_views(entries@)));
    Listing { paths, failure: if intact { None } else { Some(ArchiveError::MalformedArchive) } }
}

/// Lists the entries of an opened archive.
pub fn list_entries(archive: &Archive) -> (listing: Listing)
    ensures
        listed_as(listing, Some(archive@)),
{
    let (entries, intact) = scan_tar(archive.image.as_slice());
    list_paths(&entries, intact)
}

/// Lists the paths of the entries of the archive that is named `filename`
/// and holds the bytes `data`. The kind is told from the name.
///
/// With an unknown kind, or a stream that cannot be decoded, nothing is
/// listed and the failure says which. Otherwise the listing holds the path of
/// each entry read, in the order of the stream, and reports a malformed
/// archive where the reading did not reach the end. Of an xz archive the
/// contract says only that the listing is that of some decoded stream, or
/// the report of a malformed one.
pub fn list_archive_contents(filename: &str, data: &[u8]) -> (listing: Listing)
    ensures
        match archive_type_of(filename@) {
            ArchiveType::Gz => listed_as(listing, gzip_decoded(data@)),
            ArchiveType::Bz2 => listed_as(listing, bzip2_decoded(data@)),
            ArchiveType::Xz => listed_as(listing, None) || exists|image: Seq<u8>|
                listed_as(listing, Some(image)),
            ArchiveType::Unknown => listing.paths@.len() == 0 && listing.failure == Some(
                ArchiveError::UnknownArchiveType,
            ),
        },
{
    match open_archive(data, detect_archive_type(filename)) {
        Ok(archive) => {
            let listing = list_entries(&archive);
            listing
        },
        Err(e) => Listing { paths: Vec::new(), failure: Some(e) },
    }
}

} // verus!
