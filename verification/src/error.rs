//! Why an operation on an archive did not go through.

use vstd::prelude::*;

verus! {

/// The ways in which an operation fails.
#[derive(Debug, Clone, Copy, PartialEq, Eq, Structural)]
pub enum ArchiveError {
    /// No file was named where one is required.
    MissingFile,
    /// The kind asked for is none that archives are created in.
    UnsupportedType,
    /// The kind of the archive is unknown, so no codec can be chosen.
    UnknownArchiveType,
    /// The compressed stream cannot be decoded.
    MalformedStream,
    /// The decoded stream is not a sequence of tar entries.
    MalformedArchive,
    /// A file would get a name that cannot stand in an archive.
    InvalidMemberPath,
    /// The archive could not be written out.
    WriteFailed,
}

} // verus!
