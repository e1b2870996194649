//! Console logging decisions: which records pass the configured level, and
//! which of the host's three console streams each severity goes to.
//!
//! The host side (registering the logger and writing to the console) stays
//! outside; these functions are the routing rules it applies.

use vstd::prelude::*;

verus! {

/// A log record's severity, from most to least severe.
pub enum Level {
    /// A failure.
    Error,
    /// A hazard.
    Warn,
    /// Useful information.
    Info,
    /// Diagnostic detail.
    Debug,
    /// Very verbose detail.
    Trace,
}

/// The configured verbosity ceiling: records above it are dropped.
pub enum LevelFilter {
    /// Log nothing.
    Off,
    /// Log errors only.
    Error,
    /// Log warnings and errors.
    Warn,
    /// Log info, warnings and errors.
    Info,
    /// Log debug detail and everything above.
    Debug,
    /// Log everything.
    Trace,
}

/// The host console streams.
pub enum ConsoleStream {
    /// The plain log stream.
    Log,
    /// The warning stream.
    Warn,
    /// The error stream.
    Error,
}

/// A severity's rank: lower is more severe.
pub open spec fn level_rank(level: Level) -> int {
    match level {
        Level::Error => 1,
        Level::Warn => 2,
        Level::Info => 3,
        Level::Debug => 4,
        Level::Trace => 5,
    }
}

/// A filter's rank: how deep a severity it still admits.
pub open spec fn filter_rank(filter: LevelFilter) -> int {
    match filter {
        LevelFilter::Off => 0,
        LevelFilter::Error => 1,
        LevelFilter::Warn => 2,
        LevelFilter::Info => 3,
        LevelFilter::Debug => 4,
        LevelFilter::Trace => 5,
    }
}

/// Whether a record of severity `level` passes the configured `filter`:
/// exactly when the filter's rank reaches the record's rank.
pub fn log_enabled(filter: &LevelFilter, level: &Level) -> (r: bool)
    ensures
        r == (level_rank(*level) <= filter_rank(*filter)),
{
    let f = match filter {
        LevelFilter::Off => 0u8,
        LevelFilter::Error => 1,
        LevelFilter::Warn => 2,
        LevelFilter::Info => 3,
        LevelFilter::Debug => 4,
        LevelFilter::Trace => 5,
    };
    let l = match level {
        Level::Error => 1u8,
        Level::Warn => 2,
        Level::Info => 3,
        Level::Debug => 4,
        Level::Trace => 5,
    };
    l <= f
}

/// The console stream a record of this severity is written to: errors to
/// the error stream, warnings to the warning stream, everything else to
/// the plain log.
pub fn console_stream(level: &Level) -> (r: ConsoleStream)
    ensures
        *level is Error ==> r is Error,
        *level is Warn ==> r is Warn,
        !(*level is Error) && !(*level is Warn) ==> r is Log,
{
    match level {
        Level::Error => ConsoleStream::Error,
        Level::Warn => ConsoleStream::Warn,
        _ => ConsoleStream::Log,
    }
}

/// The verbosity a fresh logger is configured with: debug detail for a
/// debug build, plain information otherwise.
pub fn default_level(debug_build: bool) -> (r: LevelFilter)
    ensures
        debug_build ==> r is Debug,
        !debug_build ==> r is Info,
{
    if debug_build {
        LevelFilter::Debug
    } else {
        LevelFilter::Info
    }
}

} // verus!
