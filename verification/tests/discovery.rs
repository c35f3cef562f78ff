use ddc::config::{Config, PathDefinition};
use ddc::discovery::discovery_manager::{
    aggregate_tools, detect_projects, parent_info, project_result, tooling_result,
};
use ddc::discovery::{
    default_discovery_definitions, discover, DiscoveryDefinition, DiscoveryManager,
    DynamicDetector, JsNpmDetector, PathLoader, ProgressEvent, ProgressReporter, ProgressStream,
    PythonVenvDetector, RustBuildDirDetector,
};
use ddc::file_info::{FileMeta, Timestamp};
use ddc::files_db::FilesDB;
use ddc::path::EntryPath;
use ddc::types::Language;

const DIR: u64 = 4096;

/// A reporter that keeps what it is told.
#[derive(Clone, Default)]
struct Recorder {
    events: std::sync::Arc<std::sync::Mutex<Vec<ProgressEvent>>>,
}

impl ProgressReporter for Recorder {
    fn report(&self, event: ProgressEvent) {
        self.events.lock().unwrap().push(event);
    }
}

impl Recorder {
    fn events(&self) -> Vec<ProgressEvent> {
        self.events.lock().unwrap().clone()
    }

    fn count(&self, event: ProgressEvent) -> usize {
        self.events().iter().filter(|e| **e == event).count()
    }
}

fn quiet() -> ProgressStream<Recorder> {
    ProgressStream::new(Recorder::default())
}

fn path(text: &str) -> EntryPath {
    EntryPath::from_str(text)
}

fn dir_at(db: &mut FilesDB, text: &str, seconds: i64) {
    db.add(
        path(text),
        FileMeta { is_dir: true, size: Some(DIR), touched: Some(Timestamp::new(seconds, 0)) },
    );
}

fn file_at(db: &mut FilesDB, text: &str, size: u64, seconds: i64) {
    db.add(
        path(text),
        FileMeta { is_dir: false, size: Some(size), touched: Some(Timestamp::new(seconds, 0)) },
    );
}

/// What a loader finds beneath `/home/me` in the scenarios below.
fn home_index() -> FilesDB {
    let mut db = FilesDB::new();
    dir_at(&mut db, "/home/me/projects", 10);
    dir_at(&mut db, "/home/me/projects/rust", 11);
    dir_at(&mut db, "/home/me/projects/rust/target", 12);
    dir_at(&mut db, "/home/me/projects/rust/target/release", 13);
    dir_at(&mut db, "/home/me/projects/rust/target/release/build", 14);
    file_at(&mut db, "/home/me/projects/rust/target/release/build/file", 15, 15);
    dir_at(&mut db, "/home/me/projects/python", 20);
    dir_at(&mut db, "/home/me/projects/python/venv", 21);
    dir_at(&mut db, "/home/me/projects/python/venv/bin", 22);
    file_at(&mut db, "/home/me/projects/python/venv/bin/python", 22, 23);
    dir_at(&mut db, "/home/me/.cache/uv", 30);
    file_at(&mut db, "/home/me/.cache/uv/CACHEDIR.TAG", 43, 31);
    dir_at(&mut db, "/home/me/to_sum", 40);
    file_at(&mut db, "/home/me/to_sum/foo.txt", 13, 41);
    db
}

#[derive(Default)]
struct HomeLoader;

impl PathLoader for HomeLoader {
    fn load_multiple_paths(&self, _scan_paths: &[EntryPath]) -> FilesDB {
        home_index()
    }
}

/// A loader that finds what lies beneath the roots it is given, in `home_index`.
#[derive(Default)]
struct RootsLoader;

impl PathLoader for RootsLoader {
    fn load_multiple_paths(&self, scan_paths: &[EntryPath]) -> FilesDB {
        let all = home_index();
        let mut db = FilesDB::new();
        for root in scan_paths {
            let mut it = all.iter_dir(root);
            while let Some(info) = it.next() {
                db.add(
                    info.path.clone(),
                    FileMeta { is_dir: info.is_dir, size: info.size, touched: info.touched },
                );
            }
        }
        db
    }
}

fn definition(text: &str, discovery: bool, description: &str, lang: Option<Language>) -> DiscoveryDefinition {
    DiscoveryDefinition { path: path(text), discovery, description: description.to_string(), lang }
}

#[test]
fn python_detector_asks_for_the_interpreter() {
    let db = home_index();
    let detector = PythonVenvDetector;
    assert!(detector.detect(&db, &path("/home/me/projects/python/venv")));
    assert!(!detector.detect(&db, &path("/home/me/projects/python")));
    assert!(!detector.detect(&db, &path("/home/me/projects/python/venv/bin")));
    assert!(!detector.detect(&db, &path("/home/me/projects/rust/target")));
    assert_eq!(PythonVenvDetector::LANG, Language::Python);
}

#[test]
fn python_detector_takes_any_entry_for_the_interpreter() {
    let mut db = FilesDB::new();
    dir_at(&mut db, "/v/bin/python", 1);
    assert!(PythonVenvDetector.detect(&db, &path("/v")));
}

#[test]
fn rust_detector_asks_for_the_name_and_a_build_directory() {
    let db = home_index();
    let detector = RustBuildDirDetector;
    assert!(detector.detect(&db, &path("/home/me/projects/rust/target")));
    assert!(!detector.detect(&db, &path("/home/me/projects/rust")));
    assert!(!detector.detect(&db, &path("/home/me/projects/rust/target/release")));
    assert_eq!(RustBuildDirDetector::LANG, Language::Rust);

    let mut debug = FilesDB::new();
    dir_at(&mut debug, "/p/target/debug/build", 1);
    dir_at(&mut debug, "/p/other/debug/build", 1);
    file_at(&mut debug, "/q/target/debug/build", 1, 1);
    dir_at(&mut debug, "/s/target/debug", 1);
    dir_at(&mut debug, "/t/mytarget/debug/build", 1);
    assert!(detector.detect(&debug, &path("/p/target")));
    assert!(!detector.detect(&debug, &path("/p/other")));
    assert!(!detector.detect(&debug, &path("/q/target")));
    assert!(!detector.detect(&debug, &path("/s/target")));
    assert!(!detector.detect(&debug, &path("/t/mytarget")));
}

#[test]
fn npm_detector_asks_for_the_name_and_the_marker() {
    let mut db = FilesDB::new();
    dir_at(&mut db, "/p/node_modules", 1);
    dir_at(&mut db, "/p/node_modules/.bin", 1);
    dir_at(&mut db, "/q/node_modules", 1);
    file_at(&mut db, "/r/node_modules/.bin", 1, 1);
    dir_at(&mut db, "/s/modules/.bin", 1);
    let detector = JsNpmDetector;
    assert!(detector.detect(&db, &path("/p/node_modules")));
    assert!(!detector.detect(&db, &path("/q/node_modules")));
    assert!(!detector.detect(&db, &path("/r/node_modules")));
    assert!(!detector.detect(&db, &path("/s/modules")));
    assert!(!detector.detect(&db, &path("/p")));
    assert_eq!(JsNpmDetector::LANG, Language::JS);
}

#[test]
fn npm_detector_leaves_out_a_tree_within_a_tree() {
    let mut db = FilesDB::new();
    dir_at(&mut db, "/p/node_modules", 1);
    dir_at(&mut db, "/p/node_modules/.bin", 1);
    dir_at(&mut db, "/p/node_modules/dep/node_modules", 1);
    dir_at(&mut db, "/p/node_modules/dep/node_modules/.bin", 1);
    dir_at(&mut db, "/p/node_modules/node_modules", 1);
    dir_at(&mut db, "/p/node_modules/node_modules/.bin", 1);
    let detector = JsNpmDetector;
    assert!(detector.detect(&db, &path("/p/node_modules")));
    assert!(!detector.detect(&db, &path("/p/node_modules/dep/node_modules")));
    assert!(!detector.detect(&db, &path("/p/node_modules/node_modules")));

    let found = detect_projects(&db, &vec![definition("/p", true, "p", None)], &detector);
    assert_eq!(found.len(), 1);
    assert_eq!(found[0].path, path("/p/node_modules"));
    assert_eq!(found[0].size, 6 * DIR);
}

#[test]
fn detectors_answer_the_same_when_asked_again() {
    let db = home_index();
    for text in ["/home/me/projects/python/venv", "/home/me/projects/rust/target", "/home/me"] {
        let p = path(text);
        assert_eq!(PythonVenvDetector.detect(&db, &p), PythonVenvDetector.detect(&db, &p));
        assert_eq!(RustBuildDirDetector.detect(&db, &p), RustBuildDirDetector.detect(&db, &p));
        assert_eq!(JsNpmDetector.detect(&db, &p), JsNpmDetector.detect(&db, &p));
    }
}

#[test]
fn a_virtual_environment_is_found_with_its_parent() {
    let mut db = FilesDB::new();
    dir_at(&mut db, "/root/projects", 1);
    dir_at(&mut db, "/root/projects/python", 2);
    dir_at(&mut db, "/root/projects/python/venv", 3);
    dir_at(&mut db, "/root/projects/python/venv/bin", 4);
    file_at(&mut db, "/root/projects/python/venv/bin/python", 22, 5);
    let definitions = vec![definition("/root/projects/", true, "Projects", None)];

    let mut log = quiet();
    let results = discover(&db, &definitions, &mut log);

    assert_eq!(results.projects.len(), 1);
    assert_eq!(results.tools.len(), 0);
    let project = &results.projects[0];
    assert_eq!(project.path, path("/root/projects/python/venv"));
    assert_eq!(project.lang, Language::Python);
    let dirs_size: u64 = DIR + DIR;
    assert_eq!(project.size, dirs_size + 22);
    assert_eq!(project.last_update, Some(Timestamp::new(5, 0)));
    let parent = project.parent.as_ref().unwrap();
    assert_eq!(parent.path, path("/root/projects/python"));
    assert_eq!(parent.size, 3 * DIR + 22);
}

#[test]
fn a_project_adds_up_its_own_subtree() {
    let mut db = FilesDB::new();
    db.add(path("/w/python"), FileMeta { is_dir: true, size: Some(1), touched: None });
    db.add(path("/w/python/venv"), FileMeta { is_dir: true, size: Some(10), touched: None });
    db.add(path("/w/python/venv/bin"), FileMeta { is_dir: true, size: Some(100), touched: None });
    db.add(path("/w/python/venv/bin/python"), FileMeta { is_dir: false, size: Some(1000), touched: None });
    db.add(path("/w/python/venv2"), FileMeta { is_dir: false, size: Some(10000), touched: None });

    let project = project_result(&db, &path("/w/python/venv"), Language::Python);
    assert_eq!(project.size, 1110);
    assert_eq!(project.last_update, None);
    assert_eq!(project.parent.unwrap().size, 11111);
}

#[test]
fn a_static_root_is_summed_up() {
    let mut db = FilesDB::new();
    dir_at(&mut db, "/root/.cache", 1);
    dir_at(&mut db, "/root/.cache/uv", 2);
    file_at(&mut db, "/root/.cache/uv/CACHEDIR.TAG", 43, 9);
    let definitions = vec![definition("/root/.cache/uv", false, "uv cache", Some(Language::Python))];

    let mut log = quiet();
    let results = discover(&db, &definitions, &mut log);

    assert_eq!(results.projects.len(), 0);
    assert_eq!(results.tools.len(), 1);
    let tool = &results.tools[0];
    assert_eq!(tool.description, "uv cache");
    assert_eq!(tool.path, path("/root/.cache/uv"));
    assert_eq!(tool.lang, Some(Language::Python));
    assert_eq!(tool.size, DIR + 43);
    assert_eq!(tool.last_update, Some(Timestamp::new(9, 0)));
    assert!(results.db.is_none());
}

#[test]
fn a_static_root_that_is_missing_is_reported_empty() {
    let db = home_index();
    let definitions = vec![definition("/home/me/.cargo/registry", false, "Cargo registry", Some(Language::Rust))];
    let tools = aggregate_tools(&db, &definitions);
    assert_eq!(tools.len(), 1);
    assert_eq!(tools[0].size, 0);
    assert_eq!(tools[0].last_update, None);
    let tool = tooling_result(&db, &definitions[0]);
    assert_eq!(tool.size, 0);
    assert_eq!(tool.description, "Cargo registry");
}

#[test]
fn parent_info_needs_the_parent_in_the_index() {
    let mut db = FilesDB::new();
    file_at(&mut db, "/a/b/c", 5, 1);
    assert!(parent_info(&db, &path("/a/b/c")).is_none());
    dir_at(&mut db, "/a/b", 1);
    let info = parent_info(&db, &path("/a/b/c")).unwrap();
    assert_eq!(info.path, path("/a/b"));
    assert_eq!(info.size, DIR + 5);
    assert!(parent_info(&db, &path("/")).is_none());
    assert!(parent_info(&db, &path("/a")).is_none());
}

#[test]
fn discover_runs_the_detectors_in_their_order() {
    let db = home_index();
    let definitions = vec![
        definition("/home/me/.cache/uv", false, "uv cache", Some(Language::Python)),
        definition("/home/me/projects", true, "Projects", None),
        definition("/home/me/to_sum", false, "Just to check", Some(Language::Rust)),
        definition("/home/me/projects/python", true, "Again", None),
    ];
    let mut log = quiet();
    let results = discover(&db, &definitions, &mut log);

    let projects: Vec<(EntryPath, Language, u64)> =
        results.projects.iter().map(|p| (p.path.clone(), p.lang, p.size)).collect();
    assert_eq!(
        projects,
        vec![
            (path("/home/me/projects/rust/target"), Language::Rust, 3 * DIR + 15),
            (path("/home/me/projects/python/venv"), Language::Python, 2 * DIR + 22),
            (path("/home/me/projects/python/venv"), Language::Python, 2 * DIR + 22),
        ]
    );
    let tools: Vec<(String, u64)> =
        results.tools.iter().map(|t| (t.description.clone(), t.size)).collect();
    assert_eq!(tools, vec![("uv cache".to_string(), DIR + 43), ("Just to check".to_string(), DIR + 13)]);
}

#[test]
fn discover_reports_its_progress() {
    let db = home_index();
    let mut log = quiet();
    log.report(ProgressEvent::WalkFinished);
    discover(&db, &Vec::new(), &mut log);

    assert_eq!(
        log.reporter().events(),
        vec![
            ProgressEvent::WalkFinished,
            ProgressEvent::DiscoveryStart { count: 3 },
            ProgressEvent::DiscoveryAdvance,
            ProgressEvent::DiscoveryAdvance,
            ProgressEvent::DiscoveryAdvance,
            ProgressEvent::DiscoveryAdvance,
            ProgressEvent::DiscoveryFinished,
        ]
    );
}

#[test]
fn test_discovery_manager() {
    let root_path = path("/home/me");
    let config = Config {
        paths: vec![
            PathDefinition {
                path: root_path.beneath("projects"),
                discovery: true,
                name: Some(String::from("Projects")),
                language: None,
            },
            PathDefinition {
                path: root_path.beneath("to_sum"),
                discovery: false,
                name: Some(String::from("Just to check")),
                language: Some(String::from("rust")),
            },
        ],
    };

    let mut log = quiet();
    let discovery_results = DiscoveryManager::<HomeLoader>::with_default_loader(&root_path)
        .add_from_config(&config)
        .collect(&mut log);

    let found_tools: Vec<_> = discovery_results.tools.iter().filter(|r| r.size > 0).collect();
    let mut found_projects: Vec<_> = discovery_results.projects.iter().filter(|r| r.size > 0).collect();
    found_projects.sort_by_key(|r| r.path.to_bytes());

    assert_eq!(found_tools.len() + found_projects.len(), 4);

    // Coming from the default definitions
    assert_eq!(found_tools[0].description, "uv cache");
    assert_eq!(found_tools[0].path, root_path.beneath(".cache/uv"));
    assert_eq!(found_tools[0].lang, Some(Language::Python));
    assert_eq!(found_tools[0].size, DIR + 43);

    // Coming from the configuration: discovery
    assert_eq!(found_projects[0].path, root_path.beneath("projects/python/venv"));
    assert_eq!(found_projects[0].lang, Language::Python);
    assert_eq!(found_projects[0].size, 2 * DIR + 22);

    assert_eq!(found_projects[1].path, root_path.beneath("projects/rust/target"));
    assert_eq!(found_projects[1].lang, Language::Rust);
    assert_eq!(found_projects[1].size, 3 * DIR + 15);

    // Coming from the configuration: summed up as it stands
    assert_eq!(found_tools[1].description, "Just to check");
    assert_eq!(found_tools[1].path, root_path.beneath("to_sum"));
    assert_eq!(found_tools[1].lang, Some(Language::Rust));
    assert_eq!(found_tools[1].size, DIR + 13);

    // four static roots among the defaults, and one of the configuration
    assert_eq!(discovery_results.tools.len(), 5);
    assert!(discovery_results.db.unwrap().contains(&root_path.beneath("to_sum/foo.txt")));
}

#[test]
fn a_run_reports_its_progress() {
    let home = path("/home/me");
    let config = Config {
        paths: vec![PathDefinition {
            path: path("projects"),
            discovery: true,
            name: None,
            language: None,
        }],
    };
    let mut log = quiet();
    DiscoveryManager::new(HomeLoader, &home).add_from_config(&config).collect(&mut log);

    let log = log.into_reporter();
    assert_eq!(
        log.events(),
        vec![
            ProgressEvent::WalkStart { count: 7 },
            ProgressEvent::WalkFinished,
            ProgressEvent::DiscoveryStart { count: 3 },
            ProgressEvent::DiscoveryAdvance,
            ProgressEvent::DiscoveryAdvance,
            ProgressEvent::DiscoveryAdvance,
            ProgressEvent::DiscoveryAdvance,
            ProgressEvent::DiscoveryFinished,
        ]
    );
    assert_eq!(log.count(ProgressEvent::WalkStart { count: 7 }), 1);
    assert_eq!(log.count(ProgressEvent::WalkFinished), 1);
    assert_eq!(log.count(ProgressEvent::DiscoveryFinished), 1);
    assert_eq!(log.count(ProgressEvent::DiscoveryAdvance), 4);
    assert_eq!(log.count(ProgressEvent::WalkAdvance), 0);
}

#[test]
fn the_loader_is_handed_the_roots() {
    let home = path("/home/me");
    let config = Config {
        paths: vec![PathDefinition {
            path: path("projects/python"),
            discovery: true,
            name: None,
            language: Some("Python".to_string()),
        }],
    };
    let mut log = quiet();
    let results =
        DiscoveryManager::new(RootsLoader, &home).add_from_config(&config).collect(&mut log);
    let db = results.db.unwrap();
    assert!(db.contains(&path("/home/me/.cache/uv/CACHEDIR.TAG")));
    assert!(db.contains(&path("/home/me/projects/python/venv/bin/python")));
    assert!(!db.contains(&path("/home/me/projects/rust")));
    assert!(!db.contains(&path("/home/me/to_sum")));
    assert_eq!(results.projects.len(), 1);
    assert_eq!(results.projects[0].path, path("/home/me/projects/python/venv"));
    // the root itself is in the index, the directory above it is not
    assert_eq!(results.projects[0].parent.as_ref().unwrap().path, path("/home/me/projects/python"));
}

#[test]
fn configured_roots_follow_the_defaults() {
    let home = path("/home/me");
    let config = Config {
        paths: vec![
            PathDefinition { path: path("one"), discovery: false, name: None, language: Some("Klingon".to_string()) },
            PathDefinition { path: path("/abs/two"), discovery: false, name: Some("Two".to_string()), language: Some("JavaScript".to_string()) },
        ],
    };
    let mut log = quiet();
    let results = DiscoveryManager::new(HomeLoader, &home).add_from_config(&config).collect(&mut log);
    let tools: Vec<(String, EntryPath, Option<Language>)> =
        results.tools.iter().map(|t| (t.description.clone(), t.path.clone(), t.lang)).collect();
    assert_eq!(
        tools,
        vec![
            ("Cargo registry".to_string(), path("/home/me/.cargo/registry"), Some(Language::Rust)),
            ("Poetry cache".to_string(), path("/home/me/Library/Caches/pypoetry"), Some(Language::Python)),
            ("Poetry cache".to_string(), path("/home/me/.cache/pypoetry"), Some(Language::Python)),
            ("uv cache".to_string(), path("/home/me/.cache/uv"), Some(Language::Python)),
            ("Projects".to_string(), path("/home/me/one"), None),
            ("Two".to_string(), path("/abs/two"), Some(Language::JS)),
        ]
    );
}

#[test]
fn default_definitions_lie_beneath_the_home_directory() {
    let definitions = default_discovery_definitions(&path("/home/me"));
    let listed: Vec<(EntryPath, bool, String, Option<Language>)> = definitions
        .iter()
        .map(|d| (d.path.clone(), d.discovery, d.description.clone(), d.lang))
        .collect();
    assert_eq!(
        listed,
        vec![
            (path("/home/me/.cargo/registry"), false, "Cargo registry".to_string(), Some(Language::Rust)),
            (path("/home/me/Library/Caches/pypoetry"), false, "Poetry cache".to_string(), Some(Language::Python)),
            (path("/home/me/Library/Caches/pypoetry/virtualenvs"), true, "Poetry virtualenvs".to_string(), Some(Language::Python)),
            (path("/home/me/.cache/pypoetry"), false, "Poetry cache".to_string(), Some(Language::Python)),
            (path("/home/me/.cache/pypoetry/virtualenvs"), true, "Poetry virtualenvs".to_string(), Some(Language::Python)),
            (path("/home/me/.cache/uv"), false, "uv cache".to_string(), Some(Language::Python)),
        ]
    );
}
