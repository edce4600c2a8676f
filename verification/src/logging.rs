//! Leveled logging: which messages pass the configured level, and the line
//! that shows one.

use vstd::prelude::*;

verus! {

/// Message levels, from the most verbose to the most severe.
#[derive(PartialEq, Eq, Structural, PartialOrd, Ord, Clone, Copy, Debug)]
pub enum LogLevel {
    Log,
    Info,
    Warning,
    Error,
}

/// The place of a level in the order `Log < Info < Warning < Error`.
pub open spec fn level_rank(level: LogLevel) -> nat {
    match level {
        LogLevel::Log => 0,
        LogLevel::Info => 1,
        LogLevel::Warning => 2,
        LogLevel::Error => 3,
    }
}

fn rank(level: LogLevel) -> (r: u8)
    ensures
        r == level_rank(level),
{
    match level {
        LogLevel::Log => 0,
        LogLevel::Info => 1,
        LogLevel::Warning => 2,
        LogLevel::Error => 3,
    }
}

/// The name under which messages of a level are shown.
pub open spec fn level_name(level: LogLevel) -> Seq<char> {
    match level {
        LogLevel::Log => "log"@,
        LogLevel::Info => "info"@,
        LogLevel::Warning => "warning"@,
        LogLevel::Error => "error"@,
    }
}

/// Sets the level of the process once; `configured` is where it is kept.
pub fn set_log_level(configured: &mut Option<LogLevel>, level: LogLevel)
    requires
        *old(configured) == None::<LogLevel>,
    ensures
        *final(configured) == Some(level),
{
    *configured = Some(level);
}

/// Whether a message of `level` passes: its level is at least the configured
/// one (`Log` when none is configured).
pub open spec fn passes(configured: Option<LogLevel>, level: LogLevel) -> bool {
    let threshold = match configured {
        Some(l) => l,
        None => LogLevel::Log,
    };
    level_rank(threshold) <= level_rank(level)
}

/// The line to print for message `s` of `level`, `[name] s`, when it passes
/// the configured level; none when it does not.
pub fn log_with_level(s: &str, level: LogLevel, configured: Option<LogLevel>) -> (r: Option<String>)
    ensures
        match r {
            Some(line) => passes(configured, level) && line@ == "["@ + level_name(level) + "] "@ + s@,
            None => !passes(configured, level),
        },
{
    let level_str = match level {
        LogLevel::Log => "log",
        LogLevel::Info => "info",
        LogLevel::Warning => "warning",
        LogLevel::Error => "error",
    };
    let threshold = match configured {
        Some(l) => l,
        None => LogLevel::Log,
    };
    if rank(threshold) <= rank(level) {
        let mut line = String::from_str("[");
        line.append(level_str);
        line.append("] ");
        line.append(s);
        Some(line)
    } else {
        None
    }
}

} // verus!
