//! Logging setup rules: which sinks the log goes to, and at what level.
use std::str::FromStr;
use tracing::Level;
use vstd::prelude::*;

verus! {

/// Log levels, most severe first.
#[derive(PartialEq, Eq, Structural, Clone, Copy, Debug)]
pub enum LogLevel {
    Error,
    Warn,
    Info,
    Debug,
    Trace,
}

/// `c` with an ASCII capital letter made small.
pub open spec fn ascii_lower(c: char) -> char {
    if 'A' <= c <= 'Z' {
        ((c as u32) + 32) as char
    } else {
        c
    }
}

/// `s` equals the lower-case ASCII word `w` when ASCII case is ignored.
pub open spec fn equals_ignoring_ascii_case(s: Seq<char>, w: Seq<char>) -> bool {
    s.len() == w.len() && forall|i: int| 0 <= i < s.len() ==> ascii_lower(#[trigger] s[i]) == w[i]
}

/// The digits of `s` once an optional leading `+` is dropped.
pub open spec fn unsigned_digits(s: Seq<char>) -> Seq<char> {
    if s.len() > 0 && s[0] == '+' {
        s.skip(1)
    } else {
        s
    }
}

/// `s` reads as the unsigned decimal number `d`, for a digit `d` from 1 to 9:
/// an optional `+`, any number of zeros, and the digit.
pub open spec fn reads_as_small_number(s: Seq<char>, d: nat) -> bool {
    let t = unsigned_digits(s);
    &&& t.len() >= 1
    &&& forall|i: int| 0 <= i < t.len() - 1 ==> #[trigger] t[i] == '0'
    &&& t.last() == (48 + d) as char
}

/// The level that tracing's `Level::from_str` reads from `s`: a number from
/// 1 to 5 (error to trace), or a level name in any ASCII case.
pub open spec fn level_from_text(s: Seq<char>) -> Option<LogLevel> {
    if reads_as_small_number(s, 1) {
        Some(LogLevel::Error)
    } else if reads_as_small_number(s, 2) {
        Some(LogLevel::Warn)
    } else if reads_as_small_number(s, 3) {
        Some(LogLevel::Info)
    } else if reads_as_small_number(s, 4) {
        Some(LogLevel::Debug)
    } else if reads_as_small_number(s, 5) {
        Some(LogLevel::Trace)
    } else if equals_ignoring_ascii_case(s, seq!['e', 'r', 'r', 'o', 'r']) {
        Some(LogLevel::Error)
    } else if equals_ignoring_ascii_case(s, seq!['w', 'a', 'r', 'n']) {
        Some(LogLevel::Warn)
    } else if equals_ignoring_ascii_case(s, seq!['i', 'n', 'f', 'o']) {
        Some(LogLevel::Info)
    } else if equals_ignoring_ascii_case(s, seq!['d', 'e', 'b', 'u', 'g']) {
        Some(LogLevel::Debug)
    } else if equals_ignoring_ascii_case(s, seq!['t', 'r', 'a', 'c', 'e']) {
        Some(LogLevel::Trace)
    } else {
        None
    }
}

/// `tracing::Level::from_str`: the level that `s` names, if any. Its source
/// first reads `s` as a `usize` from 1 to 5, then compares it with the five
/// level names ignoring ASCII case.
#[verifier::external_body]
fn parse_level(s: &str) -> (r: Option<LogLevel>)
    ensures
        r == level_from_text(s@),
{
    match Level::from_str(s) {
        Ok(Level::ERROR) => Some(LogLevel::Error),
        Ok(Level::WARN) => Some(LogLevel::Warn),
        Ok(Level::INFO) => Some(LogLevel::Info),
        Ok(Level::DEBUG) => Some(LogLevel::Debug),
        Ok(Level::TRACE) => Some(LogLevel::Trace),
        _ => None,
    }
}

/// The level the log is filtered at: the configured one, or `Info` when the
/// configured text names no level.
pub fn log_level(configured: &str) -> (r: LogLevel)
    ensures
        level_from_text(configured@) matches Some(l) ==> r == l,
        level_from_text(configured@) is None ==> r == LogLevel::Info,
{
    match parse_level(configured) {
        Some(l) => l,
        None => LogLevel::Info,
    }
}

/// Where log lines go.
#[derive(PartialEq, Eq, Structural, Clone, Copy, Debug)]
pub enum LogSinks {
    StdoutAndFile,
    StdoutOnly,
    FileOnly,
}

/// The sinks of the log, or `None` when it goes nowhere and no logger is set up.
pub fn log_sinks(to_stdout: bool, to_file: bool) -> (r: Option<LogSinks>)
    ensures
        r == (if to_stdout && to_file {
            Some(LogSinks::StdoutAndFile)
        } else if to_stdout {
            Some(LogSinks::StdoutOnly)
        } else if to_file {
            Some(LogSinks::FileOnly)
        } else {
            None
        }),
{
    match (to_stdout, to_file) {
        (true, true) => Some(LogSinks::StdoutAndFile),
        (true, false) => Some(LogSinks::StdoutOnly),
        (false, true) => Some(LogSinks::FileOnly),
        (false, false) => None,
    }
}

} // verus!
