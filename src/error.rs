use vstd::prelude::*;

verus! {

/// Failures that the aggregation core reports to its callers.
#[derive(Debug, PartialEq, Eq)]
pub enum StatsError {
    /// Shared state could not be acquired (a previous holder failed while holding it).
    LockUnavailable,
    /// The operation needs the polling engine to be running.
    EngineNotRunning,
    /// `start` was called on an engine that is already running.
    EngineAlreadyRunning,
    /// No statistic is registered under the given name.
    UnknownStatKey(String),
    /// A sensor module failed to produce a reading; holds the module's message.
    ModuleReadFailure(String),
    /// A module produced a reading of the other kind than its accumulator: a
    /// configuration error, which the host treats as fatal.
    TypeMismatch,
}

impl StatsError {
    /// Whether this is the "unknown key" error for exactly `key`.
    pub open spec fn is_unknown_key(self, key: Seq<char>) -> bool {
        match self {
            StatsError::UnknownStatKey(k) => k@ == key,
            _ => false,
        }
    }

    /// Whether this is a module read failure carrying exactly `message`.
    pub open spec fn is_read_failure(self, message: Seq<char>) -> bool {
        match self {
            StatsError::ModuleReadFailure(m) => m@ == message,
            _ => false,
        }
    }
}

} // verus!
