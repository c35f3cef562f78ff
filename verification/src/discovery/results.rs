//! What discovery reports.

use vstd::prelude::*;
use crate::file_info::Timestamp;
use crate::files_db::FilesDB;
use crate::path::{EntryPath, PathView};
use crate::types::Language;

verus! {

/// The directory that holds a result, with all that the directory adds up to.
#[derive(Debug)]
pub struct ParentInfo {
    pub path: EntryPath,
    pub size: u64,
}

/// A directory that a detector has recognised.
#[derive(Debug)]
pub struct ProjectResult {
    pub path: EntryPath,
    pub lang: Language,
    /// The bytes held by the directory and everything beneath it.
    pub size: u64,
    /// When the directory or something beneath it last changed.
    pub last_update: Option<Timestamp>,
    /// The directory in which the result lies, where the index holds it.
    pub parent: Option<ParentInfo>,
}

/// A root that was summed up as it stands.
#[derive(Debug)]
pub struct ToolingResult {
    pub description: String,
    pub path: EntryPath,
    pub lang: Option<Language>,
    /// The bytes held by the root and everything beneath it.
    pub size: u64,
    /// When the root or something beneath it last changed.
    pub last_update: Option<Timestamp>,
}

/// A working copy under version control.
#[derive(Debug)]
pub struct VcsResult {
    pub path: EntryPath,
    pub size: u64,
    pub last_update: Option<Timestamp>,
    /// The bytes that the version control system keeps for itself.
    pub vcs_size: u64,
}

/// All that a run has found, and the index in which it was found.
#[derive(Debug)]
pub struct DiscoveryResults {
    pub projects: Vec<ProjectResult>,
    pub tools: Vec<ToolingResult>,
    pub db: Option<FilesDB>,
}

/// The model of a `ParentInfo`.
pub struct ParentInfoView {
    pub path: PathView,
    pub size: u64,
}

/// The model of a `ProjectResult`.
pub struct ProjectView {
    pub path: PathView,
    pub lang: Language,
    pub size: u64,
    pub last_update: Option<Timestamp>,
    pub parent: Option<ParentInfoView>,
}

/// The model of a `ToolingResult`.
pub struct ToolView {
    pub description: Seq<char>,
    pub path: PathView,
    pub lang: Option<Language>,
    pub size: u64,
    pub last_update: Option<Timestamp>,
}

/// The model of a `VcsResult`.
pub struct VcsView {
    pub path: PathView,
    pub size: u64,
    pub last_update: Option<Timestamp>,
    pub vcs_size: u64,
}

impl View for ParentInfo {
    type V = ParentInfoView;

    open spec fn view(&self) -> ParentInfoView {
        ParentInfoView { path: self.path@, size: self.size }
    }
}

impl View for ProjectResult {
    type V = ProjectView;

    open spec fn view(&self) -> ProjectView {
        ProjectView {
            path: self.path@,
            lang: self.lang,
            size: self.size,
            last_update: self.last_update,
            parent: match self.parent {
                Some(parent) => Some(parent@),
                None => None,
            },
        }
    }
}

impl View for ToolingResult {
    type V = ToolView;

    open spec fn view(&self) -> ToolView {
        ToolView {
            description: self.description@,
            path: self.path@,
            lang: self.lang,
            size: self.size,
            last_update: self.last_update,
        }
    }
}

impl View for VcsResult {
    type V = VcsView;

    open spec fn view(&self) -> VcsView {
        VcsView {
            path: self.path@,
            size: self.size,
            last_update: self.last_update,
            vcs_size: self.vcs_size,
        }
    }
}

/// The models of the projects in a list.
pub open spec fn project_views(projects: Seq<ProjectResult>) -> Seq<ProjectView> {
    projects.map_values(|p: ProjectResult| p@)
}

/// The models of the tools in a list.
pub open spec fn tool_views(tools: Seq<ToolingResult>) -> Seq<ToolView> {
    tools.map_values(|t: ToolingResult| t@)
}

impl Clone for ParentInfo {
    fn clone(&self) -> (copy: Self)
        ensures
            copy@ == self@,
    {
        ParentInfo { path: self.path.clone(), size: self.size }
    }
}

impl Clone for ProjectResult {
    fn clone(&self) -> (copy: Self)
        ensures
            copy@ == self@,
    {
        ProjectResult {
            path: self.path.clone(),
            lang: self.lang,
            size: self.size,
            last_update: self.last_update,
            parent: match &self.parent {
                Some(parent) => Some(parent.clone()),
                None => None,
            },
        }
    }
}

} // verus!
