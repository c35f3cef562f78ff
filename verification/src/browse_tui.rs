//! Browsing the results of a run, and the directories that the index holds.

pub mod app;
pub mod helpers;
pub mod model;
pub mod widgets;

pub use app::App;
