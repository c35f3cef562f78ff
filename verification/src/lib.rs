//! Finds what development tooling has left on disk: caches, build directories,
//! virtual environments and installed packages.
//!
//! A loader fills a [`files_db::FilesDB`], an index of paths in which a directory is
//! followed at once by everything beneath it. [`discovery`] then asks the index alone:
//! it sums up the roots that are named as they stand and searches the others with a
//! detector for each language. [`browse_tui`] is the machine behind a browser for the
//! results.

pub mod aggregate;
pub mod browse_tui;
pub mod config;
pub mod discovery;
pub mod display_tools;
pub mod file_info;
pub mod files_db;
pub mod generate_config;
pub mod insertion;
pub mod loader;
pub mod logging;
pub mod order;
pub mod parallel;
pub mod path;
pub mod path_text;
pub mod text;
pub mod types;
pub mod vcs_postprocess;
