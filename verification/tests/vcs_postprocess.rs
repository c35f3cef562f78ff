use ddc::discovery::{ProjectResult, VcsResult};
use ddc::file_info::Timestamp;
use ddc::path::EntryPath;
use ddc::types::Language;
use ddc::vcs_postprocess::{vcs_postprocess, EnrichedVcsResult};

fn project(path: &str, size: u64) -> ProjectResult {
    ProjectResult {
        path: EntryPath::from_str(path),
        lang: Language::Rust,
        size,
        last_update: None,
        parent: None,
    }
}

fn vcs(path: &str) -> VcsResult {
    VcsResult {
        path: EntryPath::from_str(path),
        size: 100,
        last_update: Some(Timestamp::new(1, 2)),
        vcs_size: 40,
    }
}

#[test]
fn projects_are_matched_to_the_working_copies_that_hold_them() {
    let projects = vec![
        project("/src/one/target", 1),
        project("/src/two/target", 2),
        project("/src/one/sub/target", 3),
        project("/src/onemore/target", 4),
        project("/src/one", 5),
    ];
    let results = vcs_postprocess(&projects, vec![vcs("/src/one"), vcs("/src/none"), vcs("/src")]);

    assert_eq!(results.len(), 3);
    assert_eq!(results[0].path, EntryPath::from_str("/src/one"));
    assert_eq!(results[0].size, 100);
    assert_eq!(results[0].vcs_size, 40);
    assert_eq!(results[0].last_update, Some(Timestamp::new(1, 2)));
    let sizes = |r: &EnrichedVcsResult| r.matched_projects.iter().map(|p| p.size).collect::<Vec<_>>();
    assert_eq!(sizes(&results[0]), vec![1, 3, 5]);
    assert_eq!(results[0].matched_projects[1].path, EntryPath::from_str("/src/one/sub/target"));
    assert_eq!(sizes(&results[1]), Vec::<u64>::new());
    assert_eq!(sizes(&results[2]), vec![1, 2, 3, 4, 5]);
}

#[test]
fn without_working_copies_there_is_nothing_to_match() {
    assert_eq!(vcs_postprocess(&[project("/a", 1)], Vec::new()).len(), 0);
    let results = vcs_postprocess(&[], vec![vcs("/a")]);
    assert_eq!(results.len(), 1);
    assert!(results[0].matched_projects.is_empty());
}

#[test]
fn a_working_copy_starts_without_projects() {
    let result = EnrichedVcsResult::from(vcs("/a/b"));
    assert_eq!(result.path, EntryPath::from_str("/a/b"));
    assert_eq!(result.size, 100);
    assert_eq!(result.vcs_size, 40);
    assert_eq!(result.last_update, Some(Timestamp::new(1, 2)));
    assert!(result.matched_projects.is_empty());
}
