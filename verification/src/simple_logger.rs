//! The rule by which the game's logger lets messages through.

use vstd::prelude::*;

verus! {

/// How grave a message is, from the gravest to the most verbose.
#[derive(Clone, Copy, Debug, PartialEq, Eq, Structural)]
pub enum LogLevel {
    Error,
    Warn,
    Info,
    Debug,
    Trace,
}

impl LogLevel {
    /// Place of the level in the order of levels: 1 for errors, 5 for traces.
    pub open spec fn verbosity(self) -> int {
        match self {
            LogLevel::Error => 1,
            LogLevel::Warn => 2,
            LogLevel::Info => 3,
            LogLevel::Debug => 4,
            LogLevel::Trace => 5,
        }
    }
}

/// A logger that prints what is at most as verbose as information.
#[derive(Clone, Copy, Debug, PartialEq, Eq, Structural)]
pub struct SimpleLogger;

impl SimpleLogger {
    /// Whether a message of the given level is let through: errors,
    /// warnings and information are, debugging and traces are not.
    pub fn enabled(&self, level: LogLevel) -> (on: bool)
        ensures
            on <==> level.verbosity() <= LogLevel::Info.verbosity(),
    {
        match level {
            LogLevel::Error => true,
            LogLevel::Warn => true,
            LogLevel::Info => true,
            LogLevel::Debug => false,
            LogLevel::Trace => false,
        }
    }
}

} // verus!
