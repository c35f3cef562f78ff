//! The detectors: each tells from the index alone whether a directory is
//! the root of what the tooling of one language has left behind.

use vstd::prelude::*;
use vstd::string::StringSliceAdditionalSpecFns;
use crate::files_db::{holds, holds_dir, FilesDB, IndexView};
use crate::path::{within, EntryPath, PathView};
use crate::path_text::{beneath, lemma_name_count_two, name_count, named};
use crate::types::Language;

verus! {

/// A predicate on the directories of an index, with the language that it recognises.
pub trait DynamicDetector: Default + Send + Sync + 'static {
    /// The language of what the detector recognises.
    const LANG: Language;

    /// Whether `path` is recognised in `index`.
    spec fn matches(&self, index: IndexView, path: PathView) -> bool;

    /// Whether `path` is recognised in `db`: a question to the index alone.
    fn detect(&self, db: &FilesDB, path: &EntryPath) -> (r: bool)
        ensures
            r == self.matches(db@, path@),
    ;
}

/// Recognises a virtual environment by the interpreter in it.
#[derive(Default, Debug)]
pub struct PythonVenvDetector;

/// Recognises the build directory of a cargo project.
#[derive(Default, Debug)]
pub struct RustBuildDirDetector;

/// Recognises the packages installed for a JavaScript project.
#[derive(Default, Debug)]
pub struct JsNpmDetector;

/// A virtual environment holds `bin/python`.
pub open spec fn is_python_venv(index: IndexView, path: PathView) -> bool {
    holds(index, beneath(path, "bin/python".spec_bytes()))
}

/// A build directory is called `target` and holds build scripts' output, of a debug or of a release build.
pub open spec fn is_rust_build_dir(index: IndexView, path: PathView) -> bool {
    &&& named(path, "target".spec_bytes())
    &&& holds_dir(index, beneath(path, "debug/build".spec_bytes())) || holds_dir(
        index,
        beneath(path, "release/build".spec_bytes()),
    )
}

/// An install tree is called `node_modules`, holds the directory `.bin`, and lies in no other install tree.
pub open spec fn is_npm_install_tree(index: IndexView, path: PathView) -> bool {
    &&& named(path, "node_modules".spec_bytes())
    &&& holds_dir(index, beneath(path, ".bin".spec_bytes()))
    &&& name_count(path, "node_modules".spec_bytes()) == 1
}

impl DynamicDetector for PythonVenvDetector {
    const LANG: Language = Language::Python;

    open spec fn matches(&self, index: IndexView, path: PathView) -> bool {
        is_python_venv(index, path)
    }

    fn detect(&self, db: &FilesDB, path: &EntryPath) -> (r: bool) {
        db.contains(&path.beneath("bin/python"))
    }
}

impl DynamicDetector for RustBuildDirDetector {
    const LANG: Language = Language::Rust;

    open spec fn matches(&self, index: IndexView, path: PathView) -> bool {
        is_rust_build_dir(index, path)
    }

    fn detect(&self, db: &FilesDB, path: &EntryPath) -> (r: bool) {
        path.is_named("target") && (db.is_dir(&path.beneath("debug/build")) || db.is_dir(
            &path.beneath("release/build"),
        ))
    }
}

impl DynamicDetector for JsNpmDetector {
    const LANG: Language = Language::JS;

    open spec fn matches(&self, index: IndexView, path: PathView) -> bool {
        is_npm_install_tree(index, path)
    }

    fn detect(&self, db: &FilesDB, path: &EntryPath) -> (r: bool) {
        if path.is_named("node_modules") && db.is_dir(&path.beneath(".bin")) {
            path.count_named("node_modules") == 1
        } else {
            false
        }
    }
}

/// A detector gives one answer for one index and one path, however often it is asked.
pub proof fn lemma_detector_is_pure<D: DynamicDetector>(
    detector: D,
    db: FilesDB,
    path: EntryPath,
    first: bool,
    second: bool,
)
    requires
        call_ensures(D::detect, (&detector, &db, &path), first),
        call_ensures(D::detect, (&detector, &db, &path), second),
    ensures
        first == second,
        first == detector.matches(db@, path@),
{
}

/// Nothing beneath an install tree is an install tree: no installed package is counted twice.
pub proof fn lemma_nested_install_tree_is_no_match(
    index: IndexView,
    outer: PathView,
    inner: PathView,
)
    requires
        is_npm_install_tree(index, outer),
        within(outer, inner),
        inner != outer,
    ensures
        !is_npm_install_tree(index, inner),
{
    let name = "node_modules".spec_bytes();
    if named(inner, name) {
        assert(outer.len() < inner.len()) by {
            if outer.len() == inner.len() {
                assert(outer =~= inner);
            }
        }
        assert(inner[outer.len() - 1] == outer[outer.len() - 1]) by {
        }
        lemma_name_count_two(inner, name, outer.len() - 1, inner.len() - 1);
    }
}

} // verus!
