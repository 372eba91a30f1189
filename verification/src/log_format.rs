//! Log records of the tools: levels, their four-letter labels and the line layout
//! `{stamp} [{label:5}] {message}`.

use vstd::prelude::*;
use crate::text::{owned, push_char, push_str};

verus! {

/// Severity of a log record.
#[derive(Debug, Clone, Copy, PartialEq, Eq, Structural)]
pub enum LogLevel {
    Error,
    Warn,
    Info,
    Debug,
    Trace,
}

/// The four-letter label of a level.
pub open spec fn level_text(l: LogLevel) -> Seq<char> {
    match l {
        LogLevel::Error => "ERRO"@,
        LogLevel::Warn => "WARN"@,
        LogLevel::Info => "INFO"@,
        LogLevel::Debug => "DEBG"@,
        LogLevel::Trace => "TRCE"@,
    }
}

/// The four-letter label of a level.
pub fn level_label(l: LogLevel) -> (s: &'static str)
    ensures
        s@ == level_text(l),
{
    match l {
        LogLevel::Error => "ERRO",
        LogLevel::Warn => "WARN",
        LogLevel::Info => "INFO",
        LogLevel::Debug => "DEBG",
        LogLevel::Trace => "TRCE",
    }
}

/// `s` left-aligned in a field of `width` characters (`{:width}` of a string).
pub open spec fn pad_right(s: Seq<char>, width: nat) -> Seq<char> {
    if s.len() >= width {
        s
    } else {
        s + Seq::new((width - s.len()) as nat, |i: int| ' ')
    }
}

/// The line of a log record: `{stamp} [{label:5}] {message}`.
pub open spec fn log_line_text(stamp: Seq<char>, l: LogLevel, message: Seq<char>) -> Seq<char> {
    stamp + " ["@ + pad_right(level_text(l), 5) + "] "@ + message
}

/// Lays out a log record as one line.
pub fn log_line(stamp: &str, l: LogLevel, message: &str) -> (s: String)
    ensures
        s@ == log_line_text(stamp@, l, message@),
{
    let mut s = owned(stamp);
    push_str(&mut s, " [");
    let label = level_label(l);
    push_str(&mut s, label);
    proof {
        reveal_strlit("ERRO");
        reveal_strlit("WARN");
        reveal_strlit("INFO");
        reveal_strlit("DEBG");
        reveal_strlit("TRCE");
    }
    push_char(&mut s, ' ');
    push_str(&mut s, "] ");
    push_str(&mut s, message);
    proof {
        assert(level_text(l).len() == 4);
        assert(pad_right(level_text(l), 5) =~= level_text(l) + seq![' ']);
    }
    assert(s@ =~= log_line_text(stamp@, l, message@));
    s
}

/// A log record: its level and its message.
#[derive(Debug, Clone)]
pub struct LogRecord {
    pub level: LogLevel,
    pub message: String,
}

} // verus!
