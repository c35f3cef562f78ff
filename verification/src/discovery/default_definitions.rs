//! The roots that every run examines: where the tooling of the known languages keeps its caches.

use vstd::prelude::*;
use vstd::string::{StringExecFns, StringSliceAdditionalSpecFns};
use crate::discovery::discovery_definitions::{definition_views, DefinitionView, DiscoveryDefinition};
use crate::path::{EntryPath, PathView};
use crate::path_text::beneath;
use crate::types::Language;

verus! {

/// A root that lies at `tail` beneath the home directory.
pub open spec fn builtin(
    home: PathView,
    lang: Language,
    discovery: bool,
    description: Seq<char>,
    tail: Seq<u8>,
) -> DefinitionView {
    DefinitionView { path: beneath(home, tail), discovery, description, lang: Some(lang) }
}

/// The roots that every run examines.
pub open spec fn default_definitions(home: PathView) -> Seq<DefinitionView> {
    seq![
        builtin(home, Language::Rust, false, "Cargo registry"@, ".cargo/registry".spec_bytes()),
        builtin(
            home,
            Language::Python,
            false,
            "Poetry cache"@,
            "Library/Caches/pypoetry".spec_bytes(),
        ),
        builtin(
            home,
            Language::Python,
            true,
            "Poetry virtualenvs"@,
            "Library/Caches/pypoetry/virtualenvs".spec_bytes(),
        ),
        builtin(home, Language::Python, false, "Poetry cache"@, ".cache/pypoetry".spec_bytes()),
        builtin(
            home,
            Language::Python,
            true,
            "Poetry virtualenvs"@,
            ".cache/pypoetry/virtualenvs".spec_bytes(),
        ),
        builtin(home, Language::Python, false, "uv cache"@, ".cache/uv".spec_bytes()),
    ]
}

/// A root that lies at `tail` beneath `home`.
fn builtin_definition(
    home: &EntryPath,
    lang: Language,
    discovery: bool,
    description: &str,
    tail: &str,
) -> (definition: DiscoveryDefinition)
    ensures
        definition@ == builtin(home@, lang, discovery, description@, tail.spec_bytes()),
{
    DiscoveryDefinition {
        path: home.beneath(tail),
        discovery,
        description: String::from_str(description),
        lang: Some(lang),
    }
}

/// The roots that every run examines, beneath the home directory `home`.
pub fn default_discovery_definitions(home: &EntryPath) -> (definitions: Vec<DiscoveryDefinition>)
    ensures
        definition_views(definitions@) == default_definitions(home@),
{
    let mut definitions: Vec<DiscoveryDefinition> = Vec::new();
    // Rust: the registry of cargo
    definitions.push(
        builtin_definition(home, Language::Rust, false, "Cargo registry", ".cargo/registry"),
    );
    // Python: the cache and the virtual environments of Poetry, on macOS
    definitions.push(
        builtin_definition(
            home,
            Language::Python,
            false,
            "Poetry cache",
            "Library/Caches/pypoetry",
        ),
    );
    definitions.push(
        builtin_definition(
            home,
            Language::Python,
            true,
            "Poetry virtualenvs",
            "Library/Caches/pypoetry/virtualenvs",
        ),
    );
    // Python: the same, on other Unix systems
    definitions.push(
        builtin_definition(home, Language::Python, false, "Poetry cache", ".cache/pypoetry"),
    );
    definitions.push(
        builtin_definition(
            home,
            Language::Python,
            true,
            "Poetry virtualenvs",
            ".cache/pypoetry/virtualenvs",
        ),
    );
    // Python: the cache of uv
    definitions.push(builtin_definition(home, Language::Python, false, "uv cache", ".cache/uv"));
    assert(definition_views(definitions@) =~= default_definitions(home@));
    definitions
}

} // verus!
