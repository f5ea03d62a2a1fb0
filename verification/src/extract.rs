//! The extractor: from the entries of an archive to the steps that restore
//! them to disk, and what a failed step means for the rest.
//!
//! The steps are carried out by the caller, one after the other. The library
//! decides which steps there are, in which order, and which of them may fail
//! without ending the extraction.

use vstd::prelude::*;
use crate::codec::Archive;
use crate::error::ArchiveError;
use crate::path::{
    components,
    components_of,
    is_root_component,
    names,
    parent_of,
    render,
    rendered,
};
use crate::reader::{entry_views, scan_failure, scan_tar, tar_scanned, ArchiveEntry, EntryView};

verus! {

/// One step of an extraction. An entry is named by its index in the list of
/// entries that the plan holds.
#[derive(Debug, PartialEq, Eq)]
pub enum Step {
    /// Report the path of the entry, which is about to be restored.
    Announce { entry: usize },
    /// Create the directory `dir`, with all its ancestors, unless it exists.
    EnsureParent { dir: String },
    /// Make sure that the directory at the path of the entry exists.
    EnsureDir { entry: usize },
    /// Write the bytes of the entry to its path, replacing what is there.
    WriteFile { entry: usize },
    /// Report that the extraction is complete.
    Finished,
}

/// A step as contracts see it.
pub enum StepView {
    Announce { entry: int },
    EnsureParent { dir: Seq<char> },
    EnsureDir { entry: int },
    WriteFile { entry: int },
    Finished,
}

impl View for Step {
    type V = StepView;

    open spec fn view(&self) -> StepView {
        match *self {
            Step::Announce { entry } => StepView::Announce { entry: entry as int },
            Step::EnsureParent { dir } => StepView::EnsureParent { dir: dir@ },
            Step::EnsureDir { entry } => StepView::EnsureDir { entry: entry as int },
            Step::WriteFile { entry } => StepView::WriteFile { entry: entry as int },
            Step::Finished => StepView::Finished,
        }
    }
}

/// The views of a list of steps.
pub open spec fn step_views(steps: Seq<Step>) -> Seq<StepView> {
    Seq::new(steps.len(), |i: int| steps[i]@)
}

/// The directory that has to exist before something is put at `path`: the
/// path without its last component. A path of one component needs none.
pub open spec fn parent_directory_of(path: Seq<char>) -> Option<Seq<char>> {
    match parent_of(components_of(path)) {
        Some(dir) => if dir.len() > 0 {
            Some(rendered(dir))
        } else {
            None
        },
        None => None,
    }
}

/// The step that puts the entry `entry`, which has the index `index`, on
/// disk: the creation of a directory, or the writing of a file.
pub open spec fn restore_step(index: int, entry: EntryView) -> StepView {
    if entry.is_dir {
        StepView::EnsureDir { entry: index }
    } else {
        StepView::WriteFile { entry: index }
    }
}

/// The steps that restore the entry `entry`, which has the index `index`:
/// the announcement if `verbose`, the parent directory if the path has one,
/// then the directory or the file itself.
pub open spec fn entry_steps(index: int, entry: EntryView, verbose: bool) -> Seq<StepView> {
    let announce = if verbose {
        seq![StepView::Announce { entry: index }]
    } else {
        Seq::empty()
    };
    let parent = match parent_directory_of(entry.path) {
        Some(dir) => seq![StepView::EnsureParent { dir }],
        None => Seq::empty(),
    };
    announce + parent + seq![restore_step(index, entry)]
}

/// The steps that restore `entries`, entry by entry in their order.
pub open spec fn steps_of(entries: Seq<EntryView>, verbose: bool) -> Seq<StepView>
    decreases entries.len(),
{
    if entries.len() == 0 {
        Seq::empty()
    } else {
        steps_of(entries.drop_last(), verbose) + entry_steps(
            entries.len() - 1,
            entries.last(),
            verbose,
        )
    }
}

/// The whole plan for `entries`: their steps, closed by the notice of
/// completion where the archive was read to its end.
pub open spec fn plan_of(entries: Seq<EntryView>, intact: bool, verbose: bool) -> Seq<StepView> {
    if intact {
        steps_of(entries, verbose).push(StepView::Finished)
    } else {
        steps_of(entries, verbose)
    }
}

/// Whether the extraction goes on when `step` fails. Only the writing of an
/// entry's file may fail without ending it.
pub open spec fn tolerated(step: StepView) -> bool {
    step is WriteFile
}

/// Where an extraction stands after a step.
#[derive(Debug, Clone, Copy, PartialEq, Eq, Structural)]
pub enum Progress {
    /// The step with this index is the next to carry out.
    Next(usize),
    /// Every step has been carried out.
    Complete,
    /// A step failed that must not fail: the extraction ends here.
    Aborted,
}

/// Where an extraction with the steps `steps` stands after the step `at`,
/// which succeeded or not.
pub open spec fn progress_after(steps: Seq<StepView>, at: int, succeeded: bool) -> Progress {
    if !succeeded && !tolerated(steps[at]) {
        Progress::Aborted
    } else if at + 1 < steps.len() {
        Progress::Next((at + 1) as usize)
    } else {
        Progress::Complete
    }
}

/// How an extraction that stands before the step `at` ends, where `failed`
/// holds the indices of the steps that fail.
pub open spec fn outcome_from(steps: Seq<StepView>, failed: Set<int>, at: int) -> Progress
    decreases steps.len() - at,
{
    if at < 0 || at >= steps.len() {
        Progress::Complete
    } else if failed.contains(at) && !tolerated(steps[at]) {
        Progress::Aborted
    } else {
        outcome_from(steps, failed, at + 1)
    }
}

/// Whether the step `index` of `steps` is reached when the steps in `failed`
/// fail: no step before it ends the extraction.
pub open spec fn reached(steps: Seq<StepView>, failed: Set<int>, index: int) -> bool {
    0 <= index < steps.len() && forall|j: int|
        0 <= j < index ==> !(failed.contains(j) && !tolerated(#[trigger] steps[j]))
}

/// The plan of an extraction.
#[derive(Debug, PartialEq, Eq)]
pub struct Extraction {
    /// The entries read from the archive, in the order of the stream.
    pub entries: Vec<ArchiveEntry>,
    /// The steps to carry out, in their order.
    pub steps: Vec<Step>,
    /// Why the archive could not be read to its end, if it could not. The
    /// steps for the entries read before are carried out all the same; the
    /// extraction then ends as failed.
    pub failure: Option<ArchiveError>,
}

impl Extraction {
    /// Every step names an entry that the plan holds.
    pub open spec fn wf(&self) -> bool {
        forall|i: int|
            0 <= i < self.steps@.len() ==> match (#[trigger] self.steps@[i])@ {
                StepView::Announce { entry } => 0 <= entry < self.entries@.len(),
                StepView::EnsureDir { entry } => 0 <= entry < self.entries@.len(),
                StepView::WriteFile { entry } => 0 <= entry < self.entries@.len(),
                _ => true,
            }
    }

    /// Where the extraction stands after the step `at`, which succeeded or
    /// not.
    pub fn advance(&self, at: usize, succeeded: bool) -> (progress: Progress)
        requires
            at < self.steps@.len(),
        ensures
            progress == progress_after(step_views(self.steps@), at as int, succeeded),
    {
        let count = self.steps.len();
        if !succeeded && !self.steps[at].tolerates_failure() {
            Progress::Aborted
        } else if at + 1 < count {
            Progress::Next(at + 1)
        } else {
            Progress::Complete
        }
    }
}

impl Step {
    /// Whether the extraction goes on when this step fails.
    pub fn tolerates_failure(&self) -> (r: bool)
        ensures
            r == tolerated(self@),
    {
        matches!(self, Step::WriteFile { .. })
    }
}

/// The directory that has to exist before something is put at `path`.
pub fn parent_directory(path: &str) -> (dir: Option<String>)
    ensures
        match dir {
            Some(d) => parent_directory_of(path@) == Some(d@),
            None => parent_directory_of(path@) is None,
        },
{
    let mut parts = components(path);
    let ghost all = parts@;
    match parts.pop() {
        Some(last) => {
            assert(names(parts@) =~= names(all).drop_last());
            if is_root_component(last.as_str()) || parts.len() == 0 {
                None
            } else {
                Some(render(&parts))
            }
        },
        None => None,
    }
}

/// Plans the extraction of `entries`, which were read from an archive to
/// its end if `intact`.
pub fn plan_extraction(entries: Vec<ArchiveEntry>, intact: bool, verbose: bool) -> (plan:
    Extraction)
    ensures
        plan.entries == entries,
        step_views(plan.steps@) == plan_of(entry_views(entries@), intact, verbose),
        plan.failure == scan_failure(intact),
        plan.wf(),
{
    let mut steps: Vec<Step> = Vec::new();
    let mut i: usize = 0;
    let ghost views = entry_views(entries@);
    while i < entries.len()
        invariant
            i <= entries.len(),
            views == entry_views(entries@),
            step_views(steps@) == steps_of(views.take(i as int), verbose),
            forall|k: int|
                0 <= k < steps@.len() ==> match (#[trigger] steps@[k])@ {
                    StepView::Announce { entry } => 0 <= entry < i,
                    StepView::EnsureDir { entry } => 0 <= entry < i,
                    StepView::WriteFile { entry } => 0 <= entry < i,
                    _ => true,
                },
        decreases entries.len() - i,
    {
        proof {
            assert(views.take(i + 1).drop_last() =~= views.take(i as int));
        }
        if verbose {
            steps.push(Step::Announce { entry: i });
        }
        match parent_directory(entries[i].path.as_str()) {
            Some(dir) => {
                steps.push(Step::EnsureParent { dir });
            },
            None => {},
        }
        if entries[i].is_dir {
            steps.push(Step::EnsureDir { entry: i });
        } else {
            steps.push(Step::WriteFile { entry: i });
        }
        i += 1;
    }
    assert(views.take(entries.len() as int) =~= views);
    if intact {
        steps.push(Step::Finished);
    }
    Extraction {
        entries,
        steps,
        failure: if intact {
            None
        } else {
            Some(ArchiveError::MalformedArchive)
        },
    }
}

/// Plans the extraction of an opened archive.
///
/// The plan holds the entries that the archive's stream gives, and for each,
/// in the order of the stream: the announcement of its path if `verbose`,
/// the creation of its parent directory, and the creation of the directory
/// or the writing of the file. The notice of completion closes the plan,
/// unless the stream could not be read to its end: then the plan ends with
/// the last entry read, and reports the archive as malformed.
pub fn extract_files(archive: Archive, verbose: bool) -> (plan: Extraction)
    ensures
        entry_views(plan.entries@) == tar_scanned(archive@).0,
        step_views(plan.steps@) == plan_of(
            tar_scanned(archive@).0,
            tar_scanned(archive@).1,
            verbose,
        ),
        plan.failure == scan_failure(tar_scanned(archive@).1),
        plan.wf(),
{
    let (entries, intact) = scan_tar(archive.image.as_slice());
    plan_extraction(entries, intact, verbose)
}

/// No entry is passed over: the steps for a list of entries hold the step
/// that puts the entry `index` on disk.
pub proof fn lemma_every_entry_is_restored(entries: Seq<EntryView>, verbose: bool, index: int)
    requires
        0 <= index < entries.len(),
    ensures
        steps_of(entries, verbose).contains(restore_step(index, entries[index])),
    decreases entries.len(),
{
    let before = steps_of(entries.drop_last(), verbose);
    let last = entry_steps(entries.len() - 1, entries.last(), verbose);
    if index == entries.len() - 1 {
        assert((before + last)[before.len() + last.len() - 1] == restore_step(
            index,
            entries[index],
        ));
    } else {
        lemma_every_entry_is_restored(entries.drop_last(), verbose, index);
        let at = choose|at: int|
            0 <= at < before.len() && before[at] == restore_step(index, entries[index]);
        assert((before + last)[at] == before[at]);
    }
}

/// A file that cannot be written does not end the extraction: where no step
/// fails but the writing of files, every step is reached and the extraction
/// runs to completion.
pub proof fn lemma_failed_writes_do_not_abort(steps: Seq<StepView>, failed: Set<int>)
    requires
        forall|i: int| 0 <= i < steps.len() && failed.contains(i) ==> steps[i] is WriteFile,
    ensures
        outcome_from(steps, failed, 0) == Progress::Complete,
        forall|i: int| 0 <= i < steps.len() ==> reached(steps, failed, i),
{
    lemma_outcome_without_fatal_failure(steps, failed, 0);
}

/// From any step on, an extraction in which no failing step is fatal runs to
/// completion.
proof fn lemma_outcome_without_fatal_failure(steps: Seq<StepView>, failed: Set<int>, at: int)
    requires
        forall|i: int| 0 <= i < steps.len() && failed.contains(i) ==> steps[i] is WriteFile,
    ensures
        outcome_from(steps, failed, at) == Progress::Complete,
    decreases steps.len() - at,
{
    if 0 <= at < steps.len() {
        lemma_outcome_without_fatal_failure(steps, failed, at + 1);
    }
}

/// The outcome of an extraction is what its steps, taken one after the
/// other by `progress_after`, lead to.
pub proof fn lemma_outcome_follows_progress(steps: Seq<StepView>, failed: Set<int>, at: int)
    requires
        0 <= at < steps.len(),
        steps.len() <= usize::MAX,
    ensures
        outcome_from(steps, failed, at) == match progress_after(steps, at, !failed.contains(at)) {
            Progress::Next(next) => outcome_from(steps, failed, next as int),
            Progress::Complete => Progress::Complete,
            Progress::Aborted => Progress::Aborted,
        },
{
    if at + 1 == steps.len() {
        assert(outcome_from(steps, failed, at + 1) == Progress::Complete);
    }
}

} // verus!
