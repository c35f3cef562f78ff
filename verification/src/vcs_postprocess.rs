//! Which projects lie in which working copy.

use vstd::prelude::*;
use crate::discovery::results::{ProjectResult, ProjectView, VcsResult, VcsView};
use crate::file_info::Timestamp;
use crate::path::{within, EntryPath, PathView};

verus! {

/// A working copy under version control, with the projects that lie in it.
#[derive(Debug)]
pub struct EnrichedVcsResult {
    pub path: EntryPath,
    pub size: u64,
    pub last_update: Option<Timestamp>,
    pub vcs_size: u64,
    pub matched_projects: Vec<ProjectResult>,
}

/// The model of an `EnrichedVcsResult`.
pub struct EnrichedVcsView {
    pub path: PathView,
    pub size: u64,
    pub last_update: Option<Timestamp>,
    pub vcs_size: u64,
    pub matched_projects: Seq<ProjectView>,
}

impl View for EnrichedVcsResult {
    type V = EnrichedVcsView;

    open spec fn view(&self) -> EnrichedVcsView {
        EnrichedVcsView {
            path: self.path@,
            size: self.size,
            last_update: self.last_update,
            vcs_size: self.vcs_size,
            matched_projects: self.matched_projects@.map_values(|p: ProjectResult| p@),
        }
    }
}

/// The projects that lie in the working copy at `root`, or are it.
pub open spec fn projects_within(projects: Seq<ProjectView>, root: PathView) -> Seq<ProjectView> {
    projects.filter(|p: ProjectView| within(root, p.path))
}

/// The working copy `vcs` with those of `projects` that lie in it.
pub open spec fn enriched(vcs: VcsView, projects: Seq<ProjectView>) -> EnrichedVcsView {
    EnrichedVcsView {
        path: vcs.path,
        size: vcs.size,
        last_update: vcs.last_update,
        vcs_size: vcs.vcs_size,
        matched_projects: projects_within(projects, vcs.path),
    }
}

impl EnrichedVcsResult {
    /// The working copy `vcs` with no project in it.
    pub fn from(vcs: VcsResult) -> (result: EnrichedVcsResult)
        ensures
            result@ == enriched(vcs@, Seq::empty()),
    {
        let result = EnrichedVcsResult {
            path: vcs.path,
            size: vcs.size,
            last_update: vcs.last_update,
            vcs_size: vcs.vcs_size,
            matched_projects: Vec::new(),
        };
        proof {
            reveal(Seq::filter);
            assert(result@.matched_projects =~= Seq::<ProjectView>::empty());
        }
        result
    }
}

/// Copies of those of `projects` that lie in `root`, in their order.
fn matching_projects(projects: &[ProjectResult], root: &EntryPath) -> (matched: Vec<ProjectResult>)
    ensures
        matched@.map_values(|p: ProjectResult| p@) == projects_within(
            projects@.map_values(|p: ProjectResult| p@),
            root@,
        ),
{
    let mut matched: Vec<ProjectResult> = Vec::new();
    let ghost all = projects@.map_values(|p: ProjectResult| p@);
    let ghost inside = |p: ProjectView| within(root@, p.path);
    let mut i: usize = 0;
    proof {
        reveal(Seq::filter);
    }
    while i < projects.len()
        invariant
            i <= projects@.len(),
            all == projects@.map_values(|p: ProjectResult| p@),
            inside == |p: ProjectView| within(root@, p.path),
            matched@.map_values(|p: ProjectResult| p@) == all.take(i as int).filter(inside),
        decreases projects.len() - i,
    {
        proof {
            reveal(Seq::filter);
            assert(all.take(i + 1).drop_last() =~= all.take(i as int));
        }
        if projects[i].path.starts_with(root) {
            let copy = projects[i].clone();
            matched.push(copy);
        }
        i += 1;
    }
    assert(all.take(i as int) =~= all);
    matched
}

/// Each working copy of `vcs_results`, in their order, with those of `projects` that lie in it.
pub fn vcs_postprocess(projects: &[ProjectResult], vcs_results: Vec<VcsResult>) -> (results: Vec<
    EnrichedVcsResult,
>)
    ensures
        results@.len() == vcs_results@.len(),
        forall|i: int|
            0 <= i < results@.len() ==> (#[trigger] results@[i])@ == enriched(
                vcs_results@[i]@,
                projects@.map_values(|p: ProjectResult| p@),
            ),
{
    let ghost all = projects@.map_values(|p: ProjectResult| p@);
    let mut results: Vec<EnrichedVcsResult> = Vec::new();
    let mut i: usize = 0;
    while i < vcs_results.len()
        invariant
            i <= vcs_results@.len(),
            all == projects@.map_values(|p: ProjectResult| p@),
            results@.len() == i,
            forall|k: int|
                0 <= k < i ==> (#[trigger] results@[k])@ == enriched(vcs_results@[k]@, all),
        decreases vcs_results.len() - i,
    {
        let vcs = &vcs_results[i];
        results.push(
            EnrichedVcsResult {
                path: vcs.path.clone(),
                size: vcs.size,
                last_update: vcs.last_update,
                vcs_size: vcs.vcs_size,
                matched_projects: matching_projects(projects, &vcs.path),
            },
        );
        i += 1;
    }
    results
}

} // verus!
