//! The local search: which entries of a directory are archives whose name
//! holds a keyword.

use vstd::prelude::*;
use crate::path::{file_name, file_name_of, names};
use crate::text::{chars_of, contains, ends_with, has_suffix, lowercased, occurs_in, to_lowercase};

verus! {

/// An entry of the directory that is searched.
#[derive(Debug, PartialEq, Eq)]
pub struct Candidate {
    /// The path of the entry.
    pub path: String,
    /// Whether the entry is a regular file.
    pub is_file: bool,
}

/// A candidate as contracts see it.
pub struct CandidateView {
    pub path: Seq<char>,
    pub is_file: bool,
}

impl View for Candidate {
    type V = CandidateView;

    open spec fn view(&self) -> CandidateView {
        CandidateView { path: self.path@, is_file: self.is_file }
    }
}

/// The views of a list of candidates.
pub open spec fn candidate_views(candidates: Seq<Candidate>) -> Seq<CandidateView> {
    Seq::new(candidates.len(), |i: int| candidates[i]@)
}

/// Whether `name` ends like an archive: with `.bz2`, `.xz` or `.gz`.
pub open spec fn has_archive_suffix(name: Seq<char>) -> bool {
    has_suffix(name, seq!['.', 'b', 'z', '2']) || has_suffix(name, seq!['.', 'x', 'z'])
        || has_suffix(name, seq!['.', 'g', 'z'])
}

/// Whether the file name `name`, which is in lower case already, is that of
/// an archive and holds `keyword`. The keyword is taken as it is.
pub open spec fn name_matches(name: Seq<char>, keyword: Seq<char>) -> bool {
    occurs_in(keyword, name) && has_archive_suffix(name)
}

/// Whether `candidate` is found by a search for `keyword`: it is a file, and
/// its file name in lower case matches.
pub open spec fn is_found(candidate: CandidateView, keyword: Seq<char>) -> bool {
    candidate.is_file && match file_name_of(candidate.path) {
        Some(name) => name_matches(lowercased(name), keyword),
        None => false,
    }
}

/// The paths of those among `candidates` that a search for `keyword` finds,
/// in their order.
pub open spec fn found_among(candidates: Seq<CandidateView>, keyword: Seq<char>) -> Seq<Seq<char>>
    decreases candidates.len(),
{
    if candidates.len() == 0 {
        Seq::empty()
    } else if is_found(candidates.last(), keyword) {
        found_among(candidates.drop_last(), keyword).push(candidates.last().path)
    } else {
        found_among(candidates.drop_last(), keyword)
    }
}

/// Whether the file name `name`, which is in lower case already, is that of
/// an archive and holds `keyword`.
pub fn matches_keyword(name: &str, keyword: &str) -> (r: bool)
    ensures
        r == name_matches(name@, keyword@),
{
    proof {
        reveal_strlit(".bz2");
        reveal_strlit(".xz");
        reveal_strlit(".gz");
    }
    let text = chars_of(name);
    let bz2 = chars_of(".bz2");
    let xz = chars_of(".xz");
    let gz = chars_of(".gz");
    assert(bz2@ =~= seq!['.', 'b', 'z', '2']);
    assert(xz@ =~= seq!['.', 'x', 'z']);
    assert(gz@ =~= seq!['.', 'g', 'z']);
    let needle = chars_of(keyword);
    contains(&text, &needle) && (ends_with(&text, &bz2) || ends_with(&text, &xz) || ends_with(
        &text,
        &gz,
    ))
}

/// Whether a search for `keyword` finds `candidate`.
pub fn finds(candidate: &Candidate, keyword: &str) -> (r: bool)
    ensures
        r == is_found(candidate@, keyword@),
{
    if !candidate.is_file {
        return false;
    }
    match file_name(candidate.path.as_str()) {
        Some(name) => {
            let lowered = to_lowercase(name.as_str());
            matches_keyword(lowered.as_str(), keyword)
        },
        None => false,
    }
}

/// Searches `candidates`, the entries of one directory, for archives whose
/// name holds `keyword`.
///
/// An entry is found if it is a file and its file name, put in lower case,
/// holds the keyword and ends with `.bz2`, `.xz` or `.gz`. The keyword is
/// compared as it is given, so one with an upper-case letter finds nothing.
/// The paths of the entries found come back in the order of the candidates.
pub fn search_files(keyword: &str, candidates: &Vec<Candidate>) -> (found: Vec<String>)
    ensures
        names(found@) == found_among(candidate_views(candidates@), keyword@),
{
    let ghost views = candidate_views(candidates@);
    let mut found: Vec<String> = Vec::new();
    let mut i: usize = 0;
    while i < candidates.len()
        invariant
            i <= candidates.len(),
            views == candidate_views(candidates@),
            names(found@) == found_among(views.take(i as int), keyword@),
        decreases candidates.len() - i,
    {
        proof {
            assert(views.take(i + 1).drop_last() =~= views.take(i as int));
        }
        if finds(&candidates[i], keyword) {
            found.push(candidates[i].path.clone());
        }
        i += 1;
    }
    assert(views.take(candidates@.len() as int) =~= views);
    found
}

} // verus!
