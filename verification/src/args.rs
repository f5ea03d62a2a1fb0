//! What a command has to be given before it can run.

use vstd::prelude::*;
use crate::error::ArchiveError;
use crate::kind::{type_of_word, ArchiveType};

verus! {

/// The name of the file that a command works on. A command that was given
/// none fails.
pub fn handle_filename(file: Option<&String>) -> (r: Result<String, ArchiveError>)
    ensures
        match file {
            Some(name) => r matches Ok(given) && given@ == name@,
            None => r matches Err(e) && e == ArchiveError::MissingFile,
        },
{
    match file {
        Some(name) => Ok(name.clone()),
        None => Err(ArchiveError::MissingFile),
    }
}

/// The kind in which an archive is to be created, from the word that asks
/// for it. Any word but `gz`, `xz` and `bz2` is refused.
pub fn parse_create_type(word: &str) -> (r: Result<ArchiveType, ArchiveError>)
    ensures
        r == if type_of_word(word@) == ArchiveType::Unknown {
            Err::<ArchiveType, ArchiveError>(ArchiveError::UnsupportedType)
        } else {
            Ok(type_of_word(word@))
        },
{
    let kind = ArchiveType::from_word(word);
    if kind.is_known() {
        Ok(kind)
    } else {
        Err(ArchiveError::UnsupportedType)
    }
}

} // verus!
