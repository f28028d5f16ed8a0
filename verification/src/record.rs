use vstd::prelude::*;
use vstd::string::StringExecFns;
use crate::level::LogLevel;

verus! {

/// An instant, as milliseconds since the Unix epoch (UTC), together with the
/// offset of the local time zone at that instant, in seconds east of UTC.
#[derive(Debug, Clone, Copy, PartialEq, Eq, Structural)]
pub struct Timestamp {
    pub millis: i64,
    pub offset_secs: i32,
}

impl Timestamp {
    /// The offset is one that a time zone can have: strictly within one day.
    pub open spec fn valid(self) -> bool {
        -86_400 < self.offset_secs < 86_400
    }

    /// Milliseconds elapsed since local midnight.
    pub open spec fn spec_local_ms_of_day(self) -> int {
        (self.millis + self.offset_secs * 1000) % 86_400_000
    }
}

/// Reads the clock with `chrono::Local::now()` and keeps the instant's
/// `timestamp_millis()` and its offset's `local_minus_utc()`. Claimed: the
/// offset lies strictly within one day, as every `chrono::FixedOffset` does
/// (they are only built by `east_opt`, which refuses other values). Nothing is
/// claimed of the instant: it is whatever the system clock reports.
#[verifier::external_body]
fn local_now() -> (t: Timestamp)
    ensures
        t.valid(),
{
    let now = chrono::Local::now();
    Timestamp { millis: now.timestamp_millis(), offset_secs: now.offset().local_minus_utc() }
}

/// One log event: when and where it happened, how severe it is, and its message.
pub struct LogRecord {
    pub timestamp: Timestamp,
    pub level: LogLevel,
    pub target: String,
    pub file: Option<String>,
    pub line: Option<u32>,
    pub body: String,
}

impl LogRecord {
    /// A record stamped with `timestamp`, with an empty target and no source location.
    pub fn at(timestamp: Timestamp, level: LogLevel, body: String) -> (r: LogRecord)
        ensures
            r.timestamp == timestamp,
            r.level == level,
            r.target@.len() == 0,
            r.file is None,
            r.line is None,
            r.body == body,
    {
        proof {
            reveal_strlit("");
        }
        LogRecord { timestamp, level, target: String::from_str(""), file: None, line: None, body }
    }

    /// A record stamped with the current time, with an empty target and no source location.
    pub fn new(level: LogLevel, body: String) -> (r: LogRecord)
        ensures
            r.timestamp.valid(),
            r.level == level,
            r.target@.len() == 0,
            r.file is None,
            r.line is None,
            r.body == body,
    {
        LogRecord::at(local_now(), level, body)
    }
}

} // verus!
