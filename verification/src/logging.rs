//! How much is logged, as the command line asks for it.

use vstd::prelude::*;

verus! {

/// The levels of logging, from nothing to everything.
#[derive(Debug, Clone, Copy, PartialEq, Eq, Structural)]
pub enum LogLevel {
    Off,
    Error,
    Warn,
    Info,
    Debug,
    Trace,
}

/// The level for `count` requests to say more: the usual level for none,
/// one step more for one, everything for more.
pub fn verbosity_to_level(count: u8) -> (level: LogLevel)
    ensures
        level == (if count == 0 {
            LogLevel::Info
        } else if count == 1 {
            LogLevel::Debug
        } else {
            LogLevel::Trace
        }),
{
    if count == 0 {
        LogLevel::Info
    } else if count == 1 {
        LogLevel::Debug
    } else {
        LogLevel::Trace
    }
}

/// The level for `count` requests to say less: the usual level for none,
/// warnings for one, errors only for more.
pub fn quiet_to_level(count: u8) -> (level: LogLevel)
    ensures
        level == (if count == 0 {
            LogLevel::Info
        } else if count == 1 {
            LogLevel::Warn
        } else {
            LogLevel::Error
        }),
{
    if count == 0 {
        LogLevel::Info
    } else if count == 1 {
        LogLevel::Warn
    } else {
        LogLevel::Error
    }
}

/// The level that the command line asks for: silence wins, then the
/// requests to say more, then those to say less.
pub fn select_level(silent: bool, verbosity: u8, quiet: u8) -> (level: LogLevel)
    ensures
        level == (if silent {
            LogLevel::Off
        } else if verbosity == 1 {
            LogLevel::Debug
        } else if verbosity > 1 {
            LogLevel::Trace
        } else if quiet == 1 {
            LogLevel::Warn
        } else if quiet > 1 {
            LogLevel::Error
        } else {
            LogLevel::Info
        }),
{
    if silent {
        LogLevel::Off
    } else if verbosity > 0 {
        verbosity_to_level(verbosity)
    } else if quiet > 0 {
        quiet_to_level(quiet)
    } else {
        LogLevel::Info
    }
}

} // verus!
