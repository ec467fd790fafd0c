//! Logging configuration: a level and a log file path, set engine-side.

use vstd::prelude::*;

use crate::engine::Engine;
use crate::engine::EngineModel;

verus! {

/// The logging level, from most to least verbose.
#[derive(Debug, Clone, Copy, PartialEq, Eq, Structural)]
pub enum LogLevel {
    Debug,
    Info,
    Warn,
    Error,
}

/// The wire value a level is carried as.
pub open spec fn spec_level_code(level: LogLevel) -> int {
    match level {
        LogLevel::Debug => 0,
        LogLevel::Info => 1,
        LogLevel::Warn => 2,
        LogLevel::Error => 3,
    }
}

/// Configures engine-side logging with a level and a log file path.
pub fn manage_logging(eng: &mut Engine, level: LogLevel, log_path: &str) -> (r: Result<(), String>)
    requires
        old(eng)@.wf(),
    ensures
        final(eng)@.wf(),
        (r matches Ok(u) && u == ()),
        final(eng)@ == (EngineModel {
            log_level: spec_level_code(level),
            log_path: log_path@,
            ..old(eng)@
        }),
{
    let code: i32 = match level {
        LogLevel::Debug => 0,
        LogLevel::Info => 1,
        LogLevel::Warn => 2,
        LogLevel::Error => 3,
    };
    let p = String::from_str(log_path);
    match eng.manage_logging(code, &p) {
        Some(e) => Err(e),
        None => Ok(()),
    }
}

} // verus!
