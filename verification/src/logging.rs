//! How much a run tells of itself.

use vstd::prelude::*;
use vstd::std_specs::convert::FromSpecImpl;

verus! {

/// How much a run tells of itself.
#[derive(Debug, Default, Clone, Copy, PartialEq, Eq, Structural)]
pub enum LoggingLevel {
    /// Warnings only.
    #[default]
    Silent,
    /// What the run does, step by step.
    Verbose,
    /// The same, with the time that each step takes.
    Traces,
}

/// The level that the caller asks for by asking `count` times for more.
pub open spec fn level_for(count: u8) -> LoggingLevel {
    if count == 0 {
        LoggingLevel::Silent
    } else if count == 1 {
        LoggingLevel::Verbose
    } else {
        LoggingLevel::Traces
    }
}

impl From<u8> for LoggingLevel {
    fn from(count: u8) -> (level: LoggingLevel) {
        if count == 0 {
            LoggingLevel::Silent
        } else if count == 1 {
            LoggingLevel::Verbose
        } else {
            LoggingLevel::Traces
        }
    }
}

impl FromSpecImpl<u8> for LoggingLevel {
    open spec fn obeys_from_spec() -> bool {
        true
    }

    open spec fn from_spec(count: u8) -> LoggingLevel {
        level_for(count)
    }
}

} // verus!
