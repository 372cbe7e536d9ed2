//! Log lines: which of them are shown, and how they look.

use vstd::prelude::*;

use crate::number::{signed_decimal, write_i64};
use crate::text::{join, opt_text};

verus! {

/// How much a log line matters, and how much of the log is shown.
#[derive(Clone, Copy, Debug, PartialEq, Eq, Structural)]
pub enum LogLevel {
    Error,
    Info,
    Debug,
}

/// The place of a level, from what always matters to what rarely does.
pub open spec fn rank(level: LogLevel) -> int {
    match level {
        LogLevel::Error => 0,
        LogLevel::Info => 1,
        LogLevel::Debug => 2,
    }
}

/// The place of a level, from what always matters to what rarely does.
fn rank_of(level: LogLevel) -> (r: u8)
    ensures
        r == rank(level),
{
    match level {
        LogLevel::Error => 0,
        LogLevel::Info => 1,
        LogLevel::Debug => 2,
    }
}

/// The line that is shown for `message`, when lines up to `current` are shown.
pub open spec fn log_line(
    current: LogLevel,
    level: LogLevel,
    timestamp: Seq<char>,
    message: Seq<char>,
) -> Option<Seq<char>> {
    if rank(level) > rank(current) {
        None
    } else {
        Some(timestamp + " - "@ + message)
    }
}

/// The line to show for `message` of this level, when lines up to `current` are shown.
pub fn log(current: LogLevel, level: LogLevel, timestamp: &str, message: &str) -> (r: Option<
    String,
>)
    ensures
        opt_text(r) == log_line(current, level, timestamp@, message@),
{
    if rank_of(level) > rank_of(current) {
        return None;
    }
    let mut line = join(timestamp, " - ");
    line.append(message);
    Some(line)
}

/// An error is shown at every level, and at the lowest level nothing else is.
pub proof fn law_errors_are_always_shown(
    current: LogLevel,
    level: LogLevel,
    timestamp: Seq<char>,
    message: Seq<char>,
)
    ensures
        level == LogLevel::Error ==> log_line(current, level, timestamp, message) is Some,
        current == LogLevel::Debug ==> log_line(current, level, timestamp, message) is Some,
        current == LogLevel::Error ==> (log_line(current, level, timestamp, message) is Some
            <==> level == LogLevel::Error),
{
}

/// The text that `String::from_utf8_lossy` makes of bytes.
pub uninterp spec fn lossy_text(bytes: Seq<u8>) -> Seq<char>;

/// Calls `String::from_utf8_lossy`, which depends on the bytes alone. Bytes that are the
/// UTF-8 form of a text become that text. What becomes of other bytes is not stated.
#[verifier::external_body]
fn from_utf8_lossy(bytes: &[u8]) -> (r: String)
    ensures
        r@ == lossy_text(bytes@),
        vstd::utf8::valid_utf8(bytes@) ==> r@ == vstd::utf8::decode_utf8(bytes@),
{
    String::from_utf8_lossy(bytes).into_owned()
}

/// The time stamp of a log line: the formatted local time, or the seconds since the
/// epoch where the time could not be formatted.
pub open spec fn timestamp(secs: int, formatted: Seq<u8>) -> Seq<char> {
    if formatted.len() == 0 {
        signed_decimal(secs)
    } else {
        lossy_text(formatted)
    }
}

/// The time stamp for `secs` seconds since the epoch, when formatting the local time gave
/// the bytes `formatted`.
pub fn local_timestamp(secs: i64, formatted: &[u8]) -> (r: String)
    ensures
        r@ == timestamp(secs as int, formatted@),
        formatted@.len() > 0 && vstd::utf8::valid_utf8(formatted@) ==> r@
            == vstd::utf8::decode_utf8(formatted@),
{
    if formatted.len() == 0 {
        write_i64(secs)
    } else {
        from_utf8_lossy(formatted)
    }
}

/// What is shown at each level: errors always, information unless only errors are shown, and
/// what is for debugging only where all is shown. A line that is shown is the time stamp and
/// the message, whatever these are.
pub proof fn law_levels_build_on_each_other(
    current: LogLevel,
    level: LogLevel,
    timestamp: Seq<char>,
    message: Seq<char>,
)
    ensures
        log_line(current, LogLevel::Error, timestamp, message) is Some,
        log_line(current, LogLevel::Info, timestamp, message) is Some <==> current
            != LogLevel::Error,
        log_line(current, LogLevel::Debug, timestamp, message) is Some <==> current
            == LogLevel::Debug,
        log_line(current, level, timestamp, message) is Some ==> log_line(
            current,
            level,
            timestamp,
            message,
        )->0 == timestamp + " - "@ + message,
{
}

/// A time that was formatted is the time stamp, and the seconds are where it was not.
pub proof fn law_formatted_time_is_the_stamp(secs: int, formatted: Seq<u8>)
    ensures
        formatted.len() > 0 ==> timestamp(secs, formatted) == lossy_text(formatted),
        timestamp(secs, seq![]) == signed_decimal(secs),
{
}

} // verus!
