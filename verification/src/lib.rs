//! Compressed tar archives: picking the codec, reading, building and finding
//! them.
//!
//! The library works on values: the bytes of an archive, the entries read
//! from it, a snapshot of the files to pack. Reading and writing files is
//! left to the caller, who is handed what to write and, for an extraction,
//! the steps to carry out.
//!
//! Paths are text in which `/` separates the components.

pub mod args;
pub mod codec;
pub mod error;
pub mod extract;
pub mod kind;
pub mod path;
pub mod reader;
pub mod search;
pub mod text;
pub mod writer;

pub use args::{handle_filename, parse_create_type};
pub use codec::{open_archive, pack_archive, Archive};
pub use error::ArchiveError;
pub use extract::{extract_files, plan_extraction, Extraction, Progress, Step};
pub use kind::{detect_archive_type, output_file_name, ArchiveType};
pub use reader::{list_archive_contents, list_entries, ArchiveEntry, Listing};
pub use search::{search_files, Candidate};
pub use writer::{create_archive_from_files, plan_members, CreatedArchive, FsNode, Member, Notice};
