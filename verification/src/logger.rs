//! The rules of the log: which records are written, where they are echoed,
//! and what a line looks like. Opening the log file and taking the time are
//! the caller's part.

use vstd::prelude::*;
use vstd::string::StringExecFns;
use crate::text::{decimal_text, push_decimal, str_view};

verus! {

/// The severity of a log record, most severe first.
#[derive(Clone, Copy, Debug, PartialEq, Eq, Structural)]
pub enum LogLevel {
    Error,
    Warn,
    Info,
    Debug,
    Trace,
}

/// Where a record is echoed on the console.
#[derive(Clone, Copy, Debug, PartialEq, Eq, Structural)]
pub enum Console {
    Stdout,
    Stderr,
}

impl LogLevel {
    /// The rank of the level: 1 for the most severe, 5 for the most verbose.
    pub open spec fn rank(self) -> nat {
        match self {
            LogLevel::Error => 1,
            LogLevel::Warn => 2,
            LogLevel::Info => 3,
            LogLevel::Debug => 4,
            LogLevel::Trace => 5,
        }
    }

    /// The name of the level as it stands in a log line.
    pub open spec fn label(self) -> Seq<char> {
        match self {
            LogLevel::Error => "ERROR"@,
            LogLevel::Warn => "WARN"@,
            LogLevel::Info => "INFO"@,
            LogLevel::Debug => "DEBUG"@,
            LogLevel::Trace => "TRACE"@,
        }
    }

    /// The rank of the level: 1 for the most severe, 5 for the most verbose.
    pub fn severity(&self) -> (rank: u8)
        ensures
            rank == self.rank(),
    {
        match self {
            LogLevel::Error => 1,
            LogLevel::Warn => 2,
            LogLevel::Info => 3,
            LogLevel::Debug => 4,
            LogLevel::Trace => 5,
        }
    }

    /// The name of the level as it stands in a log line.
    pub fn name(&self) -> (name: &'static str)
        ensures
            name@ == self.label(),
    {
        match self {
            LogLevel::Error => "ERROR",
            LogLevel::Warn => "WARN",
            LogLevel::Info => "INFO",
            LogLevel::Debug => "DEBUG",
            LogLevel::Trace => "TRACE",
        }
    }
}

/// Whether a logger that writes up to the level `most_verbose` writes a
/// record of the level `level`.
pub open spec fn enabled(level: LogLevel, most_verbose: LogLevel) -> bool {
    level.rank() <= most_verbose.rank()
}

/// Whether a logger that writes up to the level `most_verbose` writes a
/// record of the level `level`.
pub fn is_enabled(level: LogLevel, most_verbose: LogLevel) -> (writes: bool)
    ensures
        writes == enabled(level, most_verbose),
{
    level.severity() <= most_verbose.severity()
}

/// Where a record of the level `level` is echoed: errors on the error
/// stream, everything else on the output stream.
pub fn console_for(level: LogLevel) -> (console: Console)
    ensures
        console == if level == LogLevel::Error {
            Console::Stderr
        } else {
            Console::Stdout
        },
{
    match level {
        LogLevel::Error => Console::Stderr,
        _ => Console::Stdout,
    }
}

/// The place in the source that a record names: the file, or `unknown`, and
/// the line, or 0.
pub open spec fn source_place(file: Option<Seq<char>>, line: Option<u32>) -> Seq<char> {
    (match file {
        Some(f) => f,
        None => "unknown"@,
    }) + ":"@ + decimal_text(
        match line {
            Some(l) => l as nat,
            None => 0,
        },
    )
}

/// The line that a record is written as:
/// `[<time> <LEVEL> <file>:<line>] <message>` and a line feed.
pub open spec fn log_line(
    timestamp: Seq<char>,
    level: LogLevel,
    file: Option<Seq<char>>,
    line: Option<u32>,
    message: Seq<char>,
) -> Seq<char> {
    "["@ + timestamp + " "@ + level.label() + " "@ + source_place(file, line) + "] "@ + message
        + "\n"@
}

/// The line that a record is written as.
pub fn format_log_line(
    timestamp: &str,
    level: LogLevel,
    file: Option<&str>,
    line: Option<u32>,
    message: &str,
) -> (text: String)
    ensures
        text@ == log_line(timestamp@, level, str_view(file), line, message@),
{
    let mut text: String = String::from_str("[");
    text.append(timestamp);
    text.append(" ");
    text.append(level.name());
    text.append(" ");
    let ghost before_place = text@;
    match file {
        Some(f) => text.append(f),
        None => text.append("unknown"),
    }
    text.append(":");
    let number: u32 = match line {
        Some(l) => l,
        None => 0,
    };
    push_decimal(&mut text, number as u128);
    assert(text@ =~= before_place + source_place(str_view(file), line));
    text.append("] ");
    text.append(message);
    text.append("\n");
    text
}

} // verus!
