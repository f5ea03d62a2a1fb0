use star::error::ArchiveError;
use star::extract::{plan_extraction, Extraction, Progress, Step};
use star::reader::ArchiveEntry;

fn entry(path: &str, is_dir: bool, content: &[u8]) -> ArchiveEntry {
    ArchiveEntry { path: path.to_string(), is_dir, content: content.to_vec() }
}

fn sample() -> Vec<ArchiveEntry> {
    vec![
        entry("docs", true, b""),
        entry("docs/a.txt", false, b"a"),
        entry("top.txt", false, b"t"),
        entry("docs/deep/er/b.txt", false, b"b"),
    ]
}

/// Carries out `plan` as a caller does, with the steps in `failing` failing.
/// Returns the steps carried out, those reported as failed, and how the
/// extraction ended.
fn run(plan: &Extraction, failing: &[usize]) -> (Vec<usize>, Vec<usize>, Progress) {
    let mut done = Vec::new();
    let mut reported = Vec::new();
    if plan.steps.is_empty() {
        return (done, reported, Progress::Complete);
    }
    let mut at = 0;
    loop {
        done.push(at);
        let succeeded = !failing.contains(&at);
        if !succeeded {
            reported.push(at);
        }
        match plan.advance(at, succeeded) {
            Progress::Next(next) => at = next,
            end => return (done, reported, end),
        }
    }
}

#[test]
fn each_entry_gets_its_steps_in_order() {
    let plan = plan_extraction(sample(), true, false);
    assert_eq!(plan.entries, sample());
    assert_eq!(plan.failure, None);
    assert_eq!(
        plan.steps,
        vec![
            Step::EnsureDir { entry: 0 },
            Step::EnsureParent { dir: "docs".to_string() },
            Step::WriteFile { entry: 1 },
            Step::WriteFile { entry: 2 },
            Step::EnsureParent { dir: "docs/deep/er".to_string() },
            Step::WriteFile { entry: 3 },
            Step::Finished,
        ]
    );
}

#[test]
fn a_verbose_extraction_announces_each_entry_first() {
    let plan = plan_extraction(sample(), true, true);
    assert_eq!(
        plan.steps,
        vec![
            Step::Announce { entry: 0 },
            Step::EnsureDir { entry: 0 },
            Step::Announce { entry: 1 },
            Step::EnsureParent { dir: "docs".to_string() },
            Step::WriteFile { entry: 1 },
            Step::Announce { entry: 2 },
            Step::WriteFile { entry: 2 },
            Step::Announce { entry: 3 },
            Step::EnsureParent { dir: "docs/deep/er".to_string() },
            Step::WriteFile { entry: 3 },
            Step::Finished,
        ]
    );
}

#[test]
fn an_archive_not_read_to_its_end_is_not_finished() {
    let plan = plan_extraction(sample(), false, false);
    assert_eq!(plan.failure, Some(ArchiveError::MalformedArchive));
    assert_eq!(plan.steps.len(), 6);
    assert_eq!(plan.steps.last(), Some(&Step::WriteFile { entry: 3 }));
    let none = plan_extraction(vec![], false, true);
    assert_eq!(none.steps, vec![]);
    assert_eq!(none.failure, Some(ArchiveError::MalformedArchive));
}

#[test]
fn no_entries_give_only_the_notice_of_completion() {
    let plan = plan_extraction(vec![], true, true);
    assert_eq!(plan.steps, vec![Step::Finished]);
    assert_eq!(plan.entries, vec![]);
    assert_eq!(plan.failure, None);
}

#[test]
fn only_the_writing_of_a_file_may_fail() {
    assert!(Step::WriteFile { entry: 0 }.tolerates_failure());
    assert!(!Step::EnsureDir { entry: 0 }.tolerates_failure());
    assert!(!Step::EnsureParent { dir: "d".to_string() }.tolerates_failure());
    assert!(!Step::Announce { entry: 0 }.tolerates_failure());
    assert!(!Step::Finished.tolerates_failure());
}

#[test]
fn a_corrupted_entry_is_reported_and_the_others_are_extracted() {
    let plan = plan_extraction(sample(), true, false);
    // Step 2 writes docs/a.txt.
    let (done, reported, end) = run(&plan, &[2]);
    assert_eq!(done, vec![0, 1, 2, 3, 4, 5, 6]);
    assert_eq!(reported, vec![2]);
    assert_eq!(end, Progress::Complete);
}

#[test]
fn every_file_may_fail_without_ending_the_extraction() {
    let plan = plan_extraction(sample(), true, true);
    let (done, reported, end) = run(&plan, &[4, 6, 9]);
    assert_eq!(done, (0..11).collect::<Vec<usize>>());
    assert_eq!(reported, vec![4, 6, 9]);
    assert_eq!(end, Progress::Complete);
}

#[test]
fn a_directory_that_cannot_be_made_ends_the_extraction() {
    let plan = plan_extraction(sample(), true, false);
    // Step 4 creates docs/deep/er.
    let (done, reported, end) = run(&plan, &[4]);
    assert_eq!(done, vec![0, 1, 2, 3, 4]);
    assert_eq!(reported, vec![4]);
    assert_eq!(end, Progress::Aborted);
    let (done, _, end) = run(&plan, &[0, 2]);
    assert_eq!(done, vec![0]);
    assert_eq!(end, Progress::Aborted);
}

#[test]
fn an_extraction_without_failure_runs_to_completion() {
    let plan = plan_extraction(sample(), true, false);
    let (done, reported, end) = run(&plan, &[]);
    assert_eq!(done.len(), plan.steps.len());
    assert_eq!(reported, Vec::<usize>::new());
    assert_eq!(end, Progress::Complete);
}

#[test]
fn progress_goes_step_by_step() {
    let plan = plan_extraction(sample(), true, false);
    assert_eq!(plan.advance(0, true), Progress::Next(1));
    assert_eq!(plan.advance(0, false), Progress::Aborted);
    assert_eq!(plan.advance(2, false), Progress::Next(3));
    assert_eq!(plan.advance(5, false), Progress::Next(6));
    assert_eq!(plan.advance(6, true), Progress::Complete);
    assert_eq!(plan.advance(6, false), Progress::Aborted);
    let cut = plan_extraction(sample(), false, false);
    assert_eq!(cut.advance(5, false), Progress::Complete);
    assert_eq!(cut.advance(5, true), Progress::Complete);
}

#[test]
fn paths_of_entries_are_used_as_they_stand() {
    let entries = vec![
        entry("./a//b/../c.txt", false, b"x"),
        entry("/abs/file", false, b"y"),
        entry("dir/", true, b""),
        entry("", false, b""),
    ];
    let plan = plan_extraction(entries, true, false);
    assert_eq!(
        plan.steps,
        vec![
            Step::EnsureParent { dir: "./a/b/..".to_string() },
            Step::WriteFile { entry: 0 },
            Step::EnsureParent { dir: "/abs".to_string() },
            Step::WriteFile { entry: 1 },
            Step::EnsureDir { entry: 2 },
            Step::WriteFile { entry: 3 },
            Step::Finished,
        ]
    );
}
