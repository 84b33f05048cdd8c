//! Log lines: a timestamp, a level and a message, appended to a console.
use vstd::prelude::*;
use crate::launch::{abort_reason_text, LaunchAbortReason};
use crate::text::push_str;

verus! {

/// How much a log line matters.
#[derive(Debug, Clone, Copy, PartialEq, Eq, Structural)]
pub enum LogLevel {
    Info,
    Warn,
    Error,
    Debug,
}

/// The name of a level.
pub open spec fn level_text(l: LogLevel) -> Seq<char> {
    match l {
        LogLevel::Info => "Info"@,
        LogLevel::Warn => "Warn"@,
        LogLevel::Error => "Error"@,
        LogLevel::Debug => "Debug"@,
    }
}

impl LogLevel {
    pub fn as_str(&self) -> (r: &'static str)
        ensures
            r@ == level_text(*self),
    {
        match self {
            LogLevel::Info => "Info",
            LogLevel::Warn => "Warn",
            LogLevel::Error => "Error",
            LogLevel::Debug => "Debug",
        }
    }
}

/// A log line handed from a background task to the console, with its
/// sequence number.
#[derive(Debug, Clone)]
pub struct CallbackLog {
    pub data: String,
    pub id: u32,
}

/// `{timestamp} : [{level}] - {message}` and a line break.
pub open spec fn log_line(timestamp: Seq<char>, level: LogLevel, message: Seq<char>) -> Seq<char> {
    timestamp + " : ["@ + level_text(level) + "] - "@ + message + "\n"@
}

/// Relies on `chrono::Local::now` and its `format`: the local date and time
/// as `%Y-%m-%d %H:%M:%S`. It depends on the clock, so nothing is promised
/// of it.
#[verifier::external_body]
fn timestamp() -> (r: String)
{
    chrono::Local::now().format("%Y-%m-%d %H:%M:%S").to_string()
}

/// The log lines for the messages `msgs`, each with its level, stamped with
/// the timestamps `ts` in turn.
pub open spec fn log_lines(ts: Seq<Seq<char>>, msgs: Seq<(LogLevel, Seq<char>)>) -> Seq<char>
    decreases msgs.len(),
{
    if msgs.len() == 0 || ts.len() == 0 {
        seq![]
    } else {
        log_lines(ts.drop_last(), msgs.drop_last()) + log_line(ts.last(), msgs.last().0, msgs.last().1)
    }
}

/// One log line, stamped `t`.
pub(crate) proof fn lemma_one_line(t: Seq<char>, m: (LogLevel, Seq<char>))
    ensures
        log_lines(seq![t], seq![m]) == log_line(t, m.0, m.1),
{
    assert(seq![t].drop_last() =~= seq![]);
    assert(seq![m].drop_last() =~= seq![]);
    assert(log_lines(seq![], seq![]) =~= seq![]);
    assert(log_lines(seq![t], seq![m]) =~= log_line(t, m.0, m.1));
}

/// Two log lines, stamped `t1` and `t2`.
pub(crate) proof fn lemma_two_lines(t1: Seq<char>, t2: Seq<char>, m1: (LogLevel, Seq<char>), m2: (LogLevel, Seq<char>))
    ensures
        log_lines(seq![t1, t2], seq![m1, m2]) == log_line(t1, m1.0, m1.1) + log_line(t2, m2.0, m2.1),
{
    assert(seq![t1, t2].drop_last() =~= seq![t1]);
    assert(seq![m1, m2].drop_last() =~= seq![m1]);
    lemma_one_line(t1, m1);
}

/// The log line for `message` at `level`, stamped with `timestamp`.
pub fn format_line(timestamp: &str, level: LogLevel, message: &str) -> (r: String)
    ensures
        r@ == log_line(timestamp@, level, message@),
{
    let mut r = String::new();
    push_str(&mut r, timestamp);
    push_str(&mut r, " : [");
    push_str(&mut r, level.as_str());
    push_str(&mut r, "] - ");
    push_str(&mut r, message);
    push_str(&mut r, "\n");
    assert(r@ =~= log_line(timestamp@, level, message@));
    r
}

/// The log line for `message` at `level`, stamped with the local time now.
pub fn format_message(message: String, level: LogLevel) -> (r: String)
    ensures
        exists|t: Seq<char>| r@ == log_line(t, level, message@),
{
    let t = timestamp();
    format_line(t.as_str(), level, message.as_str())
}

/// Appends the log line for `message` at `level`, stamped with the local
/// time now, to `console`.
pub fn log_message(message: String, level: LogLevel, console: &mut String)
    ensures
        exists|t: Seq<char>| final(console)@ == old(console)@ + log_line(t, level, message@),
{
    let line = format_message(message, level);
    push_str(console, line.as_str());
}

/// Logs `message` at `Info`.
pub fn info(message: &str, console: &mut String)
    ensures
        exists|t: Seq<char>| final(console)@ == old(console)@ + log_line(t, LogLevel::Info, message@),
{
    log_message(String::from_str(message), LogLevel::Info, console);
}

/// Logs `message` at `Warn`.
pub fn warn(message: &str, console: &mut String)
    ensures
        exists|t: Seq<char>| final(console)@ == old(console)@ + log_line(t, LogLevel::Warn, message@),
{
    log_message(String::from_str(message), LogLevel::Warn, console);
}

/// Logs `message` at `Error`.
pub fn error(message: &str, console: &mut String)
    ensures
        exists|t: Seq<char>| final(console)@ == old(console)@ + log_line(t, LogLevel::Error, message@),
{
    log_message(String::from_str(message), LogLevel::Error, console);
}

/// Logs `message` at `Debug`.
pub fn debug(message: &str, console: &mut String)
    ensures
        exists|t: Seq<char>| final(console)@ == old(console)@ + log_line(t, LogLevel::Debug, message@),
{
    log_message(String::from_str(message), LogLevel::Debug, console);
}

/// Logs, as a warning, that a launch was given up for `reason`.
pub fn abort_launch(console: &mut String, reason: LaunchAbortReason)
    ensures
        exists|t: Seq<char>| final(console)@ == old(console)@
            + log_line(t, LogLevel::Warn, "Launch aborted - "@ + abort_reason_text(reason)),
{
    let mut message = String::new();
    push_str(&mut message, "Launch aborted - ");
    push_str(&mut message, reason.as_str());
    warn(message.as_str(), console);
}

} // verus!
