//! How much the program logs.

use vstd::prelude::*;

verus! {

/// The most detailed kind of message that is logged.
#[derive(Debug, Copy, Clone, PartialEq, Eq, Structural)]
pub enum LogLevel {
    Info,
    Debug,
    Trace,
}

/// The level for a verbosity: info by default, debug at one, trace above.
pub fn max_log_level(verbosity: u64) -> (l: LogLevel)
    ensures
        verbosity == 0 ==> l == LogLevel::Info,
        verbosity == 1 ==> l == LogLevel::Debug,
        verbosity > 1 ==> l == LogLevel::Trace,
{
    match verbosity {
        0 => LogLevel::Info,
        1 => LogLevel::Debug,
        _ => LogLevel::Trace,
    }
}

} // verus!
