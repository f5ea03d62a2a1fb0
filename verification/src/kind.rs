//! The kinds of archive, and how a kind is told from a name.

use vstd::prelude::*;
use vstd::string::*;
use crate::error::ArchiveError;
use crate::path::{extension, extension_of, last_index_of, lemma_segments_with_tail, segments};
use crate::text::chars_of;

verus! {

/// Which compression container wraps the tar stream of an archive.
///
/// `Unknown` stands for a name that tells no kind; no operation proceeds with
/// it.
#[derive(Debug, Clone, Copy, PartialEq, Eq, Structural)]
pub enum ArchiveType {
    Gz,
    Xz,
    Bz2,
    Unknown,
}

/// The kind that the word `word` names: `gz`, `xz` or `bz2`.
pub open spec fn type_of_word(word: Seq<char>) -> ArchiveType {
    if word == seq!['g', 'z'] {
        ArchiveType::Gz
    } else if word == seq!['x', 'z'] {
        ArchiveType::Xz
    } else if word == seq!['b', 'z', '2'] {
        ArchiveType::Bz2
    } else {
        ArchiveType::Unknown
    }
}

/// The kind of the archive at `path`, told from the extension of its file
/// name.
pub open spec fn archive_type_of(path: Seq<char>) -> ArchiveType {
    match extension_of(path) {
        Some(ext) => type_of_word(ext),
        None => ArchiveType::Unknown,
    }
}

/// What is put behind a base name to name an archive of kind `kind`.
pub open spec fn archive_suffix(kind: ArchiveType) -> Seq<char> {
    match kind {
        ArchiveType::Gz => seq!['.', 't', 'a', 'r', '.', 'g', 'z'],
        ArchiveType::Xz => seq!['.', 't', 'a', 'r', '.', 'x', 'z'],
        ArchiveType::Bz2 => seq!['.', 't', 'a', 'r', '.', 'b', 'z', '2'],
        ArchiveType::Unknown => Seq::empty(),
    }
}

impl ArchiveType {
    /// Whether an operation can proceed with this kind.
    pub fn is_known(self) -> (known: bool)
        ensures
            known == (self != ArchiveType::Unknown),
    {
        !matches!(self, ArchiveType::Unknown)
    }

    /// The kind that `word` names.
    pub fn from_word(word: &str) -> (kind: ArchiveType)
        ensures
            kind == type_of_word(word@),
    {
        let chars = chars_of(word);
        let n = chars.len();
        if n == 2 && chars[0] == 'g' && chars[1] == 'z' {
            assert(word@ =~= seq!['g', 'z']);
            ArchiveType::Gz
        } else if n == 2 && chars[0] == 'x' && chars[1] == 'z' {
            assert(word@ =~= seq!['x', 'z']);
            ArchiveType::Xz
        } else if n == 3 && chars[0] == 'b' && chars[1] == 'z' && chars[2] == '2' {
            assert(word@ =~= seq!['b', 'z', '2']);
            ArchiveType::Bz2
        } else {
            ArchiveType::Unknown
        }
    }
}

/// Tells the kind of the archive at `path` from the extension of its file
/// name. A name without a known extension gives `Unknown`.
pub fn detect_archive_type(path: &str) -> (kind: ArchiveType)
    ensures
        kind == archive_type_of(path@),
{
    match extension(path) {
        Some(ext) => ArchiveType::from_word(ext.as_str()),
        None => ArchiveType::Unknown,
    }
}

/// The name of the file that holds an archive of kind `kind` made under the
/// base name `filename`: the base name, `.tar.` and the kind's word.
pub fn output_file_name(filename: &str, kind: ArchiveType) -> (r: Result<String, ArchiveError>)
    ensures
        match r {
            Ok(name) => kind != ArchiveType::Unknown && name@ == filename@ + archive_suffix(kind),
            Err(e) => kind == ArchiveType::Unknown && e == ArchiveError::UnknownArchiveType,
        },
{
    proof {
        reveal_strlit(".tar.gz");
        reveal_strlit(".tar.xz");
        reveal_strlit(".tar.bz2");
    }
    let suffix = match kind {
        ArchiveType::Gz => ".tar.gz",
        ArchiveType::Xz => ".tar.xz",
        ArchiveType::Bz2 => ".tar.bz2",
        ArchiveType::Unknown => {
            return Err(ArchiveError::UnknownArchiveType);
        },
    };
    let mut name = filename.to_owned();
    name.append(suffix);
    Ok(name)
}

/// The name of a new archive tells its kind: the file that an archive of a
/// known kind is written to is detected as an archive of that kind, whatever
/// the base name.
pub proof fn lemma_output_name_tells_kind(filename: Seq<char>, kind: ArchiveType)
    requires
        kind != ArchiveType::Unknown,
    ensures
        archive_type_of(filename + archive_suffix(kind)) == kind,
{
    let suffix = archive_suffix(kind);
    // The suffix holds no separator: it lengthens the last segment of the
    // base name, which so becomes the file name of the archive.
    lemma_segments_with_tail(filename, suffix);
    let segs = segments(filename);
    let name = segs.last() + suffix;
    let n = name.len() as int;
    // The last dot of the file name is the one before the kind's word.
    reveal_with_fuel(last_index_of, 5);
    match kind {
        ArchiveType::Bz2 => {
            assert(name[n - 1] == '2' && name[n - 2] == 'z' && name[n - 3] == 'b' && name[n - 4]
                == '.');
            assert(name.skip(n - 3) =~= seq!['b', 'z', '2']);
        },
        _ => {
            assert(name.drop_last().drop_last().last() == name[n - 3]);
            if kind == ArchiveType::Gz {
                assert(name.skip(n - 2) =~= seq!['g', 'z']);
            } else {
                assert(name.skip(n - 2) =~= seq!['x', 'z']);
            }
        },
    }
}

} // verus!
