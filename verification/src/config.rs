//! What the caller configures: roots of their own, and where the configuration is looked for.

use vstd::prelude::*;
use vstd::string::StringSliceAdditionalSpecFns;
use crate::path::{EntryPath, PathView};
use crate::path_text::{beneath, parse_path};

verus! {

/// One root that the caller wants examined.
#[derive(Debug)]
pub struct PathDefinition {
    /// Where the root lies; a relative path is taken from the home directory.
    pub path: EntryPath,
    /// Whether detectors are to search the root. Without it the root is summed up as it stands.
    pub discovery: bool,
    /// What the root is, in words.
    pub name: Option<String>,
    /// The name of the language to which the root belongs.
    pub language: Option<String>,
}

/// The configuration of a run.
#[derive(Debug)]
pub struct Config {
    pub paths: Vec<PathDefinition>,
}

/// The model of a `PathDefinition`.
pub struct PathDefinitionView {
    pub path: PathView,
    pub discovery: bool,
    pub name: Option<Seq<char>>,
    pub language: Option<Seq<char>>,
}

impl View for PathDefinition {
    type V = PathDefinitionView;

    open spec fn view(&self) -> PathDefinitionView {
        PathDefinitionView {
            path: self.path@,
            discovery: self.discovery,
            name: match self.name {
                Some(name) => Some(name@),
                None => None,
            },
            language: match self.language {
                Some(language) => Some(language@),
                None => None,
            },
        }
    }
}

impl View for Config {
    type V = Seq<PathDefinitionView>;

    open spec fn view(&self) -> Seq<PathDefinitionView> {
        self.paths@.map_values(|d: PathDefinition| d@)
    }
}

/// Where a configuration file is looked for, in this order: in the directory `.config` of the
/// home directory, in the home directory itself, and in the directory in which the program runs.
pub open spec fn config_file_candidates(home: PathView) -> Seq<PathView> {
    seq![
        beneath(beneath(home, ".config".spec_bytes()), "ddc.toml".spec_bytes()),
        beneath(home, ".ddc.toml".spec_bytes()),
        parse_path("ddc.toml".spec_bytes()),
    ]
}

/// The places where a configuration file is looked for, the first to be tried first.
pub fn get_config_file_candidates(home_dir: &EntryPath) -> (candidates: Vec<EntryPath>)
    ensures
        candidates@.map_values(|p: EntryPath| p@) == config_file_candidates(home_dir@),
{
    let mut candidates: Vec<EntryPath> = Vec::new();
    candidates.push(home_dir.beneath(".config").beneath("ddc.toml"));
    candidates.push(home_dir.beneath(".ddc.toml"));
    candidates.push(EntryPath::from_str("ddc.toml"));
    assert(candidates@.map_values(|p: EntryPath| p@) =~= config_file_candidates(home_dir@));
    candidates
}

} // verus!
