//! Discovery: what the index holds of the tooling of known languages.

pub mod default_definitions;
pub mod detectors;
pub mod discovery_definitions;
pub mod discovery_manager;
pub mod progress;
pub mod results;

pub use default_definitions::default_discovery_definitions;
pub use detectors::{DynamicDetector, JsNpmDetector, PythonVenvDetector, RustBuildDirDetector};
pub use discovery_definitions::DiscoveryDefinition;
pub use discovery_manager::{discover, DiscoveryManager, PathLoader};
pub use progress::{ProgressEvent, ProgressReporter, ProgressStream};
pub use results::{DiscoveryResults, ParentInfo, ProjectResult, ToolingResult, VcsResult};
