//! The discovery engine: it sums up the roots that are named as they stand,
//! and searches the others with every detector.

use vstd::prelude::*;
use vstd::string::StringExecFns;
use crate::aggregate::{
    latest_update, saturated, subtree_last_update, subtree_size, total_size,
};
use crate::discovery::detectors::{
    DynamicDetector, JsNpmDetector, PythonVenvDetector, RustBuildDirDetector,
};
use crate::discovery::discovery_definitions::{
    definition_views, DefinitionView, DiscoveryDefinition,
};
use crate::discovery::progress::{
    count_of, lemma_count_of_push, ProgressEvent, ProgressReporter, ProgressStream,
};
use crate::discovery::results::{
    project_views, tool_views, DiscoveryResults, ParentInfo, ParentInfoView, ProjectResult,
    ProjectView, ToolView, ToolingResult,
};
use crate::file_info::EntryView;
use crate::files_db::{directories, holds, subtree, FilesDB, IndexView};
use crate::path::{parent_of, EntryPath, PathView};
use crate::config::{Config, PathDefinition, PathDefinitionView};
use crate::discovery::default_definitions::{default_definitions, default_discovery_definitions};
use crate::path::joined;
use crate::text::lowercase_of;
use crate::types::{language_named, Language};

verus! {

/// The number of detectors that `discover` runs.
pub const DETECTOR_COUNT: usize = 3;

/// What `path` and everything beneath it add up to, in bytes.
pub open spec fn size_of(index: IndexView, path: PathView) -> u64 {
    saturated(total_size(subtree(index, path)))
}

/// The directory that holds `path`, with what it adds up to, where the index holds that directory.
pub open spec fn parent_info_of(index: IndexView, path: PathView) -> Option<ParentInfoView> {
    match parent_of(path) {
        Some(dir) => if holds(index, dir) {
            Some(ParentInfoView { path: dir, size: size_of(index, dir) })
        } else {
            None
        },
        None => None,
    }
}

/// What is reported of a directory that a detector for `lang` has recognised.
pub open spec fn project_at(index: IndexView, path: PathView, lang: Language) -> ProjectView {
    ProjectView {
        path,
        lang,
        size: size_of(index, path),
        last_update: latest_update(subtree(index, path)),
        parent: parent_info_of(index, path),
    }
}

/// What is reported of a root that is summed up as it stands.
pub open spec fn tool_at(index: IndexView, definition: DefinitionView) -> ToolView {
    ToolView {
        description: definition.description,
        path: definition.path,
        lang: definition.lang,
        size: size_of(index, definition.path),
        last_update: latest_update(subtree(index, definition.path)),
    }
}

/// The entries that `detector` recognises.
pub open spec fn recognised<D: DynamicDetector>(detector: D, index: IndexView) -> spec_fn(
    EntryView,
) -> bool {
    |e: EntryView| detector.matches(index, e.path)
}

/// The projects that `detector` finds in `root` and beneath it, in the order of their paths.
pub open spec fn projects_in<D: DynamicDetector>(
    detector: D,
    index: IndexView,
    root: PathView,
) -> Seq<ProjectView> {
    directories(index, root).filter(recognised(detector, index)).map_values(
        |e: EntryView| project_at(index, e.path, D::LANG),
    )
}

/// The projects that `detector` finds in the roots that are to be searched, root by root.
pub open spec fn projects_of<D: DynamicDetector>(
    detector: D,
    index: IndexView,
    definitions: Seq<DefinitionView>,
) -> Seq<ProjectView>
    decreases definitions.len(),
{
    if definitions.len() == 0 {
        Seq::empty()
    } else {
        let before = projects_of(detector, index, definitions.drop_last());
        if definitions.last().discovery {
            before + projects_in(detector, index, definitions.last().path)
        } else {
            before
        }
    }
}

/// The tools: one for each root that is summed up as it stands, in the order of the roots.
pub open spec fn tools_of(index: IndexView, definitions: Seq<DefinitionView>) -> Seq<ToolView>
    decreases definitions.len(),
{
    if definitions.len() == 0 {
        Seq::empty()
    } else {
        let before = tools_of(index, definitions.drop_last());
        if definitions.last().discovery {
            before
        } else {
            before.push(tool_at(index, definitions.last()))
        }
    }
}

/// All projects of a run: what each detector finds, the detectors in a fixed order.
pub open spec fn discovered_projects(index: IndexView, definitions: Seq<DefinitionView>) -> Seq<
    ProjectView,
> {
    projects_of(RustBuildDirDetector, index, definitions) + projects_of(
        PythonVenvDetector,
        index,
        definitions,
    ) + projects_of(JsNpmDetector, index, definitions)
}

/// What discovery reports of its own progress: its start with the number of detectors, one
/// advance for each detector and one for the roots that are summed up, and its end.
pub open spec fn discovery_progress() -> Seq<ProgressEvent> {
    seq![
        ProgressEvent::DiscoveryStart { count: DETECTOR_COUNT },
        ProgressEvent::DiscoveryAdvance,
        ProgressEvent::DiscoveryAdvance,
        ProgressEvent::DiscoveryAdvance,
        ProgressEvent::DiscoveryAdvance,
        ProgressEvent::DiscoveryFinished,
    ]
}

/// The directory that holds `path`, with what it adds up to, where `db` holds that directory.
pub fn parent_info(db: &FilesDB, path: &EntryPath) -> (info: Option<ParentInfo>)
    ensures
        match info {
            Some(parent) => parent_info_of(db@, path@) == Some(parent@),
            None => parent_info_of(db@, path@) is None,
        },
{
    match path.parent() {
        Some(dir) => {
            if db.contains(&dir) {
                let size = subtree_size(db, &dir);
                Some(ParentInfo { path: dir, size })
            } else {
                None
            }
        },
        None => None,
    }
}

/// What is reported of the directory `path`, which a detector for `lang` has recognised.
pub fn project_result(db: &FilesDB, path: &EntryPath, lang: Language) -> (project: ProjectResult)
    ensures
        project@ == project_at(db@, path@, lang),
{
    let size = subtree_size(db, path);
    let last_update = subtree_last_update(db, path);
    let parent = parent_info(db, path);
    ProjectResult { path: path.clone(), lang, size, last_update, parent }
}

/// What is reported of a root that is summed up as it stands.
pub fn tooling_result(db: &FilesDB, definition: &DiscoveryDefinition) -> (tool: ToolingResult)
    ensures
        tool@ == tool_at(db@, definition@),
{
    let size = subtree_size(db, &definition.path);
    let last_update = subtree_last_update(db, &definition.path);
    ToolingResult {
        description: definition.description.clone(),
        path: definition.path.clone(),
        lang: definition.lang,
        size,
        last_update,
    }
}

/// Adds to `projects` what `detector` finds in `root` and beneath it.
fn detect_in<D: DynamicDetector>(
    db: &FilesDB,
    root: &EntryPath,
    detector: &D,
    projects: &mut Vec<ProjectResult>,
)
    ensures
        project_views(final(projects)@) == project_views(old(projects)@) + projects_in(
            *detector,
            db@,
            root@,
        ),
{
    let mut it = db.iter_directories(root);
    let ghost index = db@;
    let ghost all = it.remaining();
    let ghost seen: IndexView = Seq::empty();
    let ghost wanted = recognised(*detector, index);
    let ghost report = |e: EntryView| project_at(index, e.path, D::LANG);
    proof {
        lemma_filter_empty(wanted);
    }
    loop
        invariant
            index == db@,
            wanted == recognised(*detector, index),
            report == |e: EntryView| project_at(index, e.path, D::LANG),
            seen + it.remaining() == all,
            project_views(projects@) == project_views(old(projects)@) + seen.filter(
                wanted,
            ).map_values(report),
        ensures
            project_views(projects@) == project_views(old(projects)@) + all.filter(
                wanted,
            ).map_values(report),
        decreases it.remaining().len(),
    {
        let ghost found = project_views(projects@);
        match it.next() {
            None => {
                break ;
            },
            Some(info) => {
                let ghost grown = seen.push(info@);
                proof {
                    lemma_filter_pushed(seen, info@, wanted);
                }
                if detector.detect(db, info.path) {
                    let project = project_result(db, info.path, D::LANG);
                    projects.push(project);
                    proof {
                        assert(project_views(projects@) =~= found.push(project@));
                    }
                }
                proof {
                    seen = grown;
                }
            },
        }
    }
}

/// A filter finds nothing in an empty sequence.
proof fn lemma_filter_empty<A>(pred: spec_fn(A) -> bool)
    ensures
        Seq::<A>::empty().filter(pred) == Seq::<A>::empty(),
{
    reveal(Seq::filter);
}

/// What a filter finds in a sequence that has grown by one element.
proof fn lemma_filter_pushed<A>(s: Seq<A>, last: A, pred: spec_fn(A) -> bool)
    ensures
        s.push(last).filter(pred) == if pred(last) {
            s.filter(pred).push(last)
        } else {
            s.filter(pred)
        },
{
    reveal(Seq::filter);
    assert(s.push(last).drop_last() =~= s);
}

/// The projects that `detector` finds in the roots that are to be searched.
pub fn detect_projects<D: DynamicDetector>(
    db: &FilesDB,
    definitions: &Vec<DiscoveryDefinition>,
    detector: &D,
) -> (projects: Vec<ProjectResult>)
    ensures
        project_views(projects@) == projects_of(*detector, db@, definition_views(definitions@)),
{
    let mut projects: Vec<ProjectResult> = Vec::new();
    let ghost roots = definition_views(definitions@);
    let mut i: usize = 0;
    while i < definitions.len()
        invariant
            i <= definitions@.len(),
            roots == definition_views(definitions@),
            project_views(projects@) == projects_of(*detector, db@, roots.take(i as int)),
        decreases definitions.len() - i,
    {
        let definition = &definitions[i];
        proof {
            assert(roots.take(i + 1).drop_last() =~= roots.take(i as int));
        }
        if definition.discovery {
            detect_in(db, &definition.path, detector, &mut projects);
        }
        i += 1;
    }
    assert(roots.take(i as int) =~= roots);
    projects
}

/// One tool for each root that is summed up as it stands.
pub fn aggregate_tools(db: &FilesDB, definitions: &Vec<DiscoveryDefinition>) -> (tools: Vec<
    ToolingResult,
>)
    ensures
        tool_views(tools@) == tools_of(db@, definition_views(definitions@)),
{
    let mut tools: Vec<ToolingResult> = Vec::new();
    let ghost roots = definition_views(definitions@);
    let mut i: usize = 0;
    while i < definitions.len()
        invariant
            i <= definitions@.len(),
            roots == definition_views(definitions@),
            tool_views(tools@) == tools_of(db@, roots.take(i as int)),
        decreases definitions.len() - i,
    {
        let definition = &definitions[i];
        proof {
            assert(roots.take(i + 1).drop_last() =~= roots.take(i as int));
        }
        if !definition.discovery {
            let tool = tooling_result(db, definition);
            tools.push(tool);
        }
        i += 1;
    }
    assert(roots.take(i as int) =~= roots);
    tools
}

/// Moves the projects of `more` to the end of `projects`.
fn append_projects(projects: &mut Vec<ProjectResult>, more: Vec<ProjectResult>)
    ensures
        project_views(final(projects)@) == project_views(old(projects)@) + project_views(more@),
{
    let mut more = more;
    projects.append(&mut more);
}

/// Runs every detector over the roots that are to be searched and sums up the others, each
/// detector and the summing up as a task of its own, all at the same time where threads are
/// free. It tells through `progress` when it starts, that each task is done, and when it ends.
pub fn discover<R: ProgressReporter>(
    db: &FilesDB,
    definitions: &Vec<DiscoveryDefinition>,
    progress: &mut ProgressStream<R>,
) -> (results: DiscoveryResults)
    ensures
        project_views(results.projects@) == discovered_projects(
            db@,
            definition_views(definitions@),
        ),
        tool_views(results.tools@) == tools_of(db@, definition_views(definitions@)),
        results.db is None,
        final(progress).reported() == old(progress).reported() + discovery_progress(),
        final(progress).inner() == old(progress).inner(),
{
    progress.report(ProgressEvent::DiscoveryStart { count: DETECTOR_COUNT });
    let ghost roots = definition_views(definitions@);
    let rust = || -> (found: Vec<ProjectResult>)
        ensures
            project_views(found@) == projects_of(RustBuildDirDetector, db@, roots),
        { detect_projects(db, definitions, &RustBuildDirDetector) };
    let python = || -> (found: Vec<ProjectResult>)
        ensures
            project_views(found@) == projects_of(PythonVenvDetector, db@, roots),
        { detect_projects(db, definitions, &PythonVenvDetector) };
    let js = || -> (found: Vec<ProjectResult>)
        ensures
            project_views(found@) == projects_of(JsNpmDetector, db@, roots),
        { detect_projects(db, definitions, &JsNpmDetector) };
    let tools = || -> (found: Vec<ToolingResult>)
        ensures
            tool_views(found@) == tools_of(db@, roots),
        { aggregate_tools(db, definitions) };
    let first = || -> (found: (Vec<ProjectResult>, Vec<ProjectResult>))
        ensures
            project_views(found.0@) == projects_of(RustBuildDirDetector, db@, roots),
            project_views(found.1@) == projects_of(PythonVenvDetector, db@, roots),
        { rayon::join(rust, python) };
    let second = || -> (found: (Vec<ProjectResult>, Vec<ToolingResult>))
        ensures
            project_views(found.0@) == projects_of(JsNpmDetector, db@, roots),
            tool_views(found.1@) == tools_of(db@, roots),
        { rayon::join(js, tools) };
    let ((mut projects, python_projects), (js_projects, tools)) = rayon::join(first, second);
    append_projects(&mut projects, python_projects);
    append_projects(&mut projects, js_projects);
    progress.report(ProgressEvent::DiscoveryAdvance);
    progress.report(ProgressEvent::DiscoveryAdvance);
    progress.report(ProgressEvent::DiscoveryAdvance);
    progress.report(ProgressEvent::DiscoveryAdvance);
    progress.report(ProgressEvent::DiscoveryFinished);
    DiscoveryResults { projects, tools, db: None }
}

/// Fills an index with what lies beneath the given roots.
pub trait PathLoader: Default {
    /// The index of everything that could be read beneath `scan_paths`.
    fn load_multiple_paths(&self, scan_paths: &[EntryPath]) -> FilesDB;
}

/// A run: the roots to examine, and the loader that reads them.
pub struct DiscoveryManager<L: PathLoader> {
    home: EntryPath,
    loader: L,
    definitions: Vec<DiscoveryDefinition>,
}

/// The root that the caller has configured with `configured`, for the home directory `home`.
/// A language that is not known leaves the root without one.
pub open spec fn configured_definition(home: PathView, configured: PathDefinitionView) -> DefinitionView {
    DefinitionView {
        path: joined(home, configured.path),
        discovery: configured.discovery,
        description: match configured.name {
            Some(name) => name,
            None => "Projects"@,
        },
        lang: match configured.language {
            Some(name) => language_named(lowercase_of(name)),
            None => None,
        },
    }
}

/// The paths of the roots, in their order.
pub open spec fn root_paths(definitions: Seq<DefinitionView>) -> Seq<PathView> {
    definitions.map_values(|d: DefinitionView| d.path)
}

/// The models of the paths in a list.
pub open spec fn path_views(paths: Seq<EntryPath>) -> Seq<PathView> {
    paths.map_values(|p: EntryPath| p@)
}

/// What a run reports of its own progress: the start of the scan with the number of roots,
/// its end, and then the progress of discovery.
pub open spec fn run_progress(roots: nat) -> Seq<ProgressEvent> {
    seq![ProgressEvent::WalkStart { count: roots as usize }, ProgressEvent::WalkFinished]
        + discovery_progress()
}

/// How many events of a run over `roots` roots are as `wanted` asks: the run reports eight
/// events, and each of them counts for itself.
proof fn lemma_run_progress_count(roots: nat, wanted: spec_fn(ProgressEvent) -> bool)
    ensures
        run_progress(roots).len() == 8,
        count_of(run_progress(roots), wanted) == (if wanted(run_progress(roots)[0]) {
            1nat
        } else {
            0nat
        }) + (if wanted(run_progress(roots)[1]) {
            1nat
        } else {
            0nat
        }) + (if wanted(run_progress(roots)[2]) {
            1nat
        } else {
            0nat
        }) + (if wanted(run_progress(roots)[3]) {
            1nat
        } else {
            0nat
        }) + (if wanted(run_progress(roots)[4]) {
            1nat
        } else {
            0nat
        }) + (if wanted(run_progress(roots)[5]) {
            1nat
        } else {
            0nat
        }) + (if wanted(run_progress(roots)[6]) {
            1nat
        } else {
            0nat
        }) + (if wanted(run_progress(roots)[7]) {
            1nat
        } else {
            0nat
        }),
{
    let all = run_progress(roots);
    let s0 = Seq::<ProgressEvent>::empty();
    let s1 = s0.push(all[0]);
    let s2 = s1.push(all[1]);
    let s3 = s2.push(all[2]);
    let s4 = s3.push(all[3]);
    let s5 = s4.push(all[4]);
    let s6 = s5.push(all[5]);
    let s7 = s6.push(all[6]);
    let s8 = s7.push(all[7]);
    assert(all =~= s8);
    lemma_count_of_push(s0, all[0], wanted);
    lemma_count_of_push(s1, all[1], wanted);
    lemma_count_of_push(s2, all[2], wanted);
    lemma_count_of_push(s3, all[3], wanted);
    lemma_count_of_push(s4, all[4], wanted);
    lemma_count_of_push(s5, all[5], wanted);
    lemma_count_of_push(s6, all[6], wanted);
    lemma_count_of_push(s7, all[7], wanted);
}

/// A run over `roots` roots reports the start of the scan once, with the number of roots;
/// the end of the scan once; the end of discovery once, as the last of all; and between
/// the start and the end of discovery one advance for each detector and one more for the
/// roots that are summed up.
pub proof fn lemma_run_progress_is_complete(roots: nat)
    requires
        roots <= usize::MAX,
    ensures
        count_of(run_progress(roots), |e: ProgressEvent| e is WalkStart) == 1,
        count_of(
            run_progress(roots),
            |e: ProgressEvent| e == (ProgressEvent::WalkStart { count: roots as usize }),
        ) == 1,
        count_of(run_progress(roots), |e: ProgressEvent| e is WalkFinished) == 1,
        count_of(run_progress(roots), |e: ProgressEvent| e is DiscoveryStart) == 1,
        count_of(run_progress(roots), |e: ProgressEvent| e is DiscoveryFinished) == 1,
        count_of(run_progress(roots), |e: ProgressEvent| e is DiscoveryAdvance) == DETECTOR_COUNT
            + 1,
        run_progress(roots).first() == (ProgressEvent::WalkStart { count: roots as usize }),
        run_progress(roots).last() == ProgressEvent::DiscoveryFinished,
        run_progress(roots)[1] == ProgressEvent::WalkFinished,
        run_progress(roots)[2] == (ProgressEvent::DiscoveryStart { count: DETECTOR_COUNT }),
{
    lemma_run_progress_count(roots, |e: ProgressEvent| e is WalkStart);
    lemma_run_progress_count(
        roots,
        |e: ProgressEvent| e == (ProgressEvent::WalkStart { count: roots as usize }),
    );
    lemma_run_progress_count(roots, |e: ProgressEvent| e is WalkFinished);
    lemma_run_progress_count(roots, |e: ProgressEvent| e is DiscoveryStart);
    lemma_run_progress_count(roots, |e: ProgressEvent| e is DiscoveryFinished);
    lemma_run_progress_count(roots, |e: ProgressEvent| e is DiscoveryAdvance);
}

/// The root that the caller has configured with `configured`.
fn definition_from_config(home: &EntryPath, configured: &PathDefinition) -> (definition:
    DiscoveryDefinition)
    ensures
        definition@ == configured_definition(home@, configured@),
{
    let lang = match &configured.language {
        None => None,
        Some(name) => match Language::try_from(name.as_str()) {
            Ok(language) => Some(language),
            Err(_) => None,
        },
    };
    let description = match &configured.name {
        Some(name) => name.clone(),
        None => String::from_str("Projects"),
    };
    DiscoveryDefinition {
        path: home.join(&configured.path),
        discovery: configured.discovery,
        description,
        lang,
    }
}

impl<L: PathLoader> DiscoveryManager<L> {
    /// The home directory, beneath which relative roots lie.
    pub closed spec fn home(&self) -> PathView {
        self.home@
    }

    /// The roots that the run examines, in order.
    pub closed spec fn definitions(&self) -> Seq<DefinitionView> {
        definition_views(self.definitions@)
    }

    /// The loader that reads the roots.
    pub closed spec fn loader(&self) -> L {
        self.loader
    }

    /// A run over the roots that every run examines, read by the loader that `L` gives by default.
    pub fn with_default_loader(home: &EntryPath) -> (manager: Self)
        ensures
            manager.home() == home@,
            manager.definitions() == default_definitions(home@),
    {
        Self::new(L::default(), home)
    }

    /// A run over the roots that every run examines, read by `loader`.
    pub fn new(loader: L, home: &EntryPath) -> (manager: Self)
        ensures
            manager.home() == home@,
            manager.definitions() == default_definitions(home@),
            manager.loader() == loader,
    {
        DiscoveryManager { home: home.clone(), loader, definitions: default_discovery_definitions(home) }
    }

    /// Adds the roots that the caller has configured, behind those that the run has already.
    pub fn add_from_config(self, config: &Config) -> (manager: Self)
        ensures
            manager.home() == self.home(),
            manager.loader() == self.loader(),
            manager.definitions() == self.definitions() + config@.map_values(
                |configured: PathDefinitionView| configured_definition(self.home(), configured),
            ),
    {
        let mut manager = self;
        let ghost before = manager.definitions();
        let ghost home = manager.home();
        let ghost loader = manager.loader();
        let ghost wanted = config@.map_values(
            |configured: PathDefinitionView| configured_definition(home, configured),
        );
        let mut i: usize = 0;
        while i < config.paths.len()
            invariant
                i <= config.paths@.len(),
                manager.home() == home,
                manager.loader() == loader,
                wanted == config@.map_values(
                    |configured: PathDefinitionView| configured_definition(home, configured),
                ),
                manager.definitions() == before + wanted.take(i as int),
            decreases config.paths.len() - i,
        {
            let ghost so_far = manager.definitions();
            let definition = definition_from_config(&manager.home, &config.paths[i]);
            manager.definitions.push(definition);
            proof {
                assert(manager.definitions() =~= so_far.push(definition@));
            }
            i += 1;
        }
        manager
    }

    /// The roots of the run, as they are handed to the loader.
    fn scan_paths(&self) -> (paths: Vec<EntryPath>)
        ensures
            path_views(paths@) == root_paths(self.definitions()),
    {
        let mut paths: Vec<EntryPath> = Vec::new();
        let mut i: usize = 0;
        let ghost wanted = root_paths(self.definitions());
        while i < self.definitions.len()
            invariant
                i <= self.definitions@.len(),
                wanted == root_paths(self.definitions()),
                path_views(paths@) == wanted.take(i as int),
            decreases self.definitions.len() - i,
        {
            let ghost so_far = path_views(paths@);
            let path = self.definitions[i].path.clone();
            paths.push(path);
            proof {
                assert(path_views(paths@) =~= so_far.push(path@));
            }
            i += 1;
        }
        paths
    }

    /// Runs: has the loader read the roots, and discovers in the index that it hands back.
    /// The results hold that index, and what they report is what `discover` finds in it.
    /// The loader is handed the paths of the roots, in their order, and nothing else.
    pub fn collect<R: ProgressReporter>(self, progress: &mut ProgressStream<R>) -> (results:
        DiscoveryResults)
        ensures
            results.db is Some,
            exists|scan_paths: &[EntryPath]|
                {
                    &&& path_views(scan_paths@) == root_paths(self.definitions())
                    &&& #[trigger] call_ensures(
                        L::load_multiple_paths,
                        (&self.loader(), scan_paths),
                        results.db->0,
                    )
                },
            project_views(results.projects@) == discovered_projects(
                results.db->0@,
                self.definitions(),
            ),
            tool_views(results.tools@) == tools_of(results.db->0@, self.definitions()),
            final(progress).reported() == old(progress).reported() + run_progress(
                self.definitions().len(),
            ),
            final(progress).inner() == old(progress).inner(),
    {
        let paths = self.scan_paths();
        progress.report(ProgressEvent::WalkStart { count: self.definitions.len() });
        let scan_paths = paths.as_slice();
        let db = self.loader.load_multiple_paths(scan_paths);
        progress.report(ProgressEvent::WalkFinished);
        let found = discover(&db, &self.definitions, progress);
        let results = DiscoveryResults { projects: found.projects, tools: found.tools, db: Some(db) };
        assert(call_ensures(L::load_multiple_paths, (&self.loader(), scan_paths), results.db->0));
        results
    }
}

} // verus!
