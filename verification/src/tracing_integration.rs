//! Mapping between the log levels of librados and those of the host's
//! tracing.

use vstd::prelude::*;

use crate::cmd::{parse_u64, parse_u64_text};

verus! {

/// A log level.
#[derive(Debug, Clone, Copy, PartialEq, Eq, Structural)]
pub enum LogLevel {
    Error,
    Warn,
    Info,
    Debug,
}

/// The level to ask the cluster's log for, and whether to install a log
/// callback at all, given which levels the host's tracing has enabled: the
/// most verbose of `error`, `warn`, `info`, `debug` whose level and all
/// less verbose ones are enabled; nothing (the empty level, no callback)
/// when errors are not enabled.
pub open spec fn log_subscription(error: bool, warn: bool, info: bool, debug: bool) -> (Seq<char>, bool) {
    if !error {
        (""@, false)
    } else if !warn {
        ("error"@, true)
    } else if !info {
        ("warn"@, true)
    } else if !debug {
        ("info"@, true)
    } else {
        ("debug"@, true)
    }
}

/// The level to subscribe to and whether to install the callback.
pub fn subscription_level(error: bool, warn: bool, info: bool, debug: bool) -> (r: (&'static str, bool))
    ensures
        (r.0@, r.1) == log_subscription(error, warn, info, debug),
{
    if error {
        if warn {
            if info {
                if debug {
                    ("debug", true)
                } else {
                    ("info", true)
                }
            } else {
                ("warn", true)
            }
        } else {
            ("error", true)
        }
    } else {
        ("", false)
    }
}

/// The level a cluster log line carries, from the second byte of its level
/// text (`E`, `W`, `I`, `D`); `None` for anything else.
pub fn level_from_tag(tag: u8) -> (r: Option<LogLevel>)
    ensures
        tag == 0x45 ==> r == Some(LogLevel::Error),
        tag == 0x57 ==> r == Some(LogLevel::Warn),
        tag == 0x49 ==> r == Some(LogLevel::Info),
        tag == 0x44 ==> r == Some(LogLevel::Debug),
        tag != 0x45 && tag != 0x57 && tag != 0x49 && tag != 0x44 ==> r is None,
{
    if tag == 0x45 {
        Some(LogLevel::Error)
    } else if tag == 0x57 {
        Some(LogLevel::Warn)
    } else if tag == 0x49 {
        Some(LogLevel::Info)
    } else if tag == 0x44 {
        Some(LogLevel::Debug)
    } else {
        None
    }
}

/// The line number a cluster log entry gives, from its text: decimal
/// digits (after an optional `+`) whose value fits in a `usize`; `None` for
/// anything else.
pub fn log_line_number(text: &str) -> (r: Option<usize>)
    ensures
        match parse_u64_text(text@) {
            Some(n) => if n <= usize::MAX {
                r == Some(n as usize)
            } else {
                r is None
            },
            None => r is None,
        },
{
    match parse_u64(text) {
        Ok(n) => if n <= usize::MAX as u64 {
            Some(n as usize)
        } else {
            None
        },
        Err(_) => None,
    }
}

} // verus!
