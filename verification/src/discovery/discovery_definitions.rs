//! The roots that a run examines.

use vstd::prelude::*;
use crate::path::{EntryPath, PathView};
use crate::types::Language;

verus! {

/// One root to examine.
#[derive(Debug)]
pub struct DiscoveryDefinition {
    /// Where the root lies.
    pub path: EntryPath,
    /// Whether detectors search the root, or the root is summed up as it stands.
    pub discovery: bool,
    /// What the root is, in words.
    pub description: String,
    /// The language to which the root belongs, where one is known.
    pub lang: Option<Language>,
}

/// The model of a `DiscoveryDefinition`.
pub struct DefinitionView {
    pub path: PathView,
    pub discovery: bool,
    pub description: Seq<char>,
    pub lang: Option<Language>,
}

impl View for DiscoveryDefinition {
    type V = DefinitionView;

    open spec fn view(&self) -> DefinitionView {
        DefinitionView {
            path: self.path@,
            discovery: self.discovery,
            description: self.description@,
            lang: self.lang,
        }
    }
}

/// The models of the definitions in a list.
pub open spec fn definition_views(definitions: Seq<DiscoveryDefinition>) -> Seq<DefinitionView> {
    definitions.map_values(|d: DiscoveryDefinition| d@)
}

} // verus!
