//! Text output of the miner: number rendering, log line prefixes and the
//! logging configuration.

pub mod formatter;
pub mod hashmeter;

use vstd::prelude::*;
use vstd::string::StrSliceExecFns;

verus! {

/// When the log file is started afresh.
#[derive(Debug, Clone, Copy, PartialEq, Eq)]
pub enum LogRotation {
    /// Never: the file only grows.
    Never,
    /// Every hour.
    Hourly,
    /// Every day.
    Daily,
    /// When the file reaches the given number of megabytes.
    Size(u64),
}

/// How logging is set up.
#[derive(Debug, Clone)]
pub struct LogConfig {
    /// Level name: trace, debug, info, warn or error.
    pub level: String,
    /// File to log into as well as the console.
    pub file_path: Option<String>,
    pub colored: bool,
    pub show_timestamp: bool,
    pub show_thread_id: bool,
    pub show_target: bool,
    /// Whether console lines go through the mining formatter.
    pub pretty: bool,
    pub rotation: LogRotation,
}

impl Default for LogConfig {
    /// Level info, console only, coloured and pretty, rotated daily.
    fn default() -> (r: Self)
        ensures
            r.level@ == "info"@,
            r.file_path.is_none(),
            r.colored,
            r.show_timestamp,
            !r.show_thread_id,
            !r.show_target,
            r.pretty,
            r.rotation == LogRotation::Daily,
    {
        LogConfig {
            level: String::from_str("info"),
            file_path: None,
            colored: true,
            show_timestamp: true,
            show_thread_id: false,
            show_target: false,
            pretty: true,
            rotation: LogRotation::Daily,
        }
    }
}

/// Severity of a log line.
#[derive(Debug, Clone, Copy, PartialEq, Eq)]
pub enum LogLevel {
    Trace,
    Debug,
    Info,
    Warn,
    Error,
}

/// How the log file is written.
#[derive(Debug, Clone, Copy, PartialEq, Eq)]
pub enum FileSchedule {
    /// One file, appended to.
    Append,
    /// A new file every hour.
    Hourly,
    /// A new file every day.
    Daily,
}

/// The lower-case form of an ASCII letter; other characters are kept.
pub open spec fn ascii_lower(c: char) -> char {
    if 'A' <= c && c <= 'Z' {
        ((c as nat) + 32) as char
    } else {
        c
    }
}

/// `s` with its ASCII letters in lower case.
pub open spec fn ascii_lower_seq(s: Seq<char>) -> Seq<char> {
    s.map_values(|c: char| ascii_lower(c))
}

/// The level a configured level name stands for, ignoring case; an unknown
/// name stands for info.
pub open spec fn level_of_name(name: Seq<char>) -> LogLevel {
    let l = ascii_lower_seq(name);
    if l == "trace"@ {
        LogLevel::Trace
    } else if l == "debug"@ {
        LogLevel::Debug
    } else if l == "info"@ {
        LogLevel::Info
    } else if l == "warn"@ {
        LogLevel::Warn
    } else if l == "error"@ {
        LogLevel::Error
    } else {
        LogLevel::Info
    }
}

/// Whether `s`, with its ASCII letters in lower case, is `lower`.
pub fn eq_ascii_lower(s: &str, lower: &str) -> (r: bool)
    ensures
        r == (ascii_lower_seq(s@) == lower@),
{
    let n = s.unicode_len();
    let m = lower.unicode_len();
    if n != m {
        assert(ascii_lower_seq(s@).len() != lower@.len());
        return false;
    }
    let mut i: usize = 0;
    while i < n
        invariant
            n == s@.len(),
            m == lower@.len(),
            n == m,
            i <= n,
            forall|j: int| 0 <= j < i ==> ascii_lower(#[trigger] s@[j]) == lower@[j],
        decreases n - i,
    {
        let a = s.get_char(i) as u32;
        let la: u32 = if 65 <= a && a <= 90 { a + 32 } else { a };
        let b = lower.get_char(i) as u32;
        if la != b {
            assert(ascii_lower(s@[i as int]) as u32 == la);
            assert(ascii_lower_seq(s@)[i as int] != lower@[i as int]);
            return false;
        }
        assert(ascii_lower(s@[i as int]) as u32 == la);
        i = i + 1;
    }
    assert(ascii_lower_seq(s@) =~= lower@);
    true
}

/// The level a configured level name stands for.
pub fn parse_log_level(name: &str) -> (r: LogLevel)
    ensures
        r == level_of_name(name@),
{
    if eq_ascii_lower(name, "trace") {
        LogLevel::Trace
    } else if eq_ascii_lower(name, "debug") {
        LogLevel::Debug
    } else if eq_ascii_lower(name, "info") {
        LogLevel::Info
    } else if eq_ascii_lower(name, "warn") {
        LogLevel::Warn
    } else if eq_ascii_lower(name, "error") {
        LogLevel::Error
    } else {
        LogLevel::Info
    }
}

/// How the log file is written under a rotation setting: rotation by size
/// is done daily.
pub fn file_schedule(rotation: LogRotation) -> (r: FileSchedule)
    ensures
        r == match rotation {
            LogRotation::Never => FileSchedule::Append,
            LogRotation::Hourly => FileSchedule::Hourly,
            LogRotation::Daily => FileSchedule::Daily,
            LogRotation::Size(_) => FileSchedule::Daily,
        },
{
    match rotation {
        LogRotation::Never => FileSchedule::Append,
        LogRotation::Hourly => FileSchedule::Hourly,
        LogRotation::Daily => FileSchedule::Daily,
        LogRotation::Size(_) => FileSchedule::Daily,
    }
}

} // verus!
