use vstd::prelude::*;
use vstd::string::StringExecFns;
use crate::config::{LoadError, LogConfig};
use crate::level::LogLevel;
use crate::record::LogRecord;
use crate::sink::SinkType;

verus! {

/// Decides, for each record, whether it is logged and by which sinks.
pub struct LogProcessor {
    pub config: LogConfig,
}

/// A record at `level` passes a processor configured with `min` unless it is less severe.
pub open spec fn passes(min: LogLevel, level: LogLevel) -> bool {
    !(level.spec_rank() < min.spec_rank())
}

impl LogProcessor {
    /// The processor for a configuration load: the loaded configuration, or the
    /// default one when loading failed.
    pub fn create_log_processor(loaded: Result<LogConfig, LoadError>) -> (p: LogProcessor)
        ensures
            match loaded {
                Ok(c) => p.config == c,
                Err(_) => {
                    &&& p.config.level == LogLevel::Log
                    &&& !p.config.enable_async
                    &&& p.config.buffer_size == 1024
                    &&& p.config.sink_type@ == seq![SinkType::Console]
                },
            },
    {
        match loaded {
            Ok(c) => LogProcessor { config: c },
            Err(_) => LogProcessor { config: LogConfig::default() },
        }
    }

    /// Does a record at `level` pass the configured minimum level?
    pub fn accepts(&self, level: LogLevel) -> (b: bool)
        ensures
            b == passes(self.config.level, level),
    {
        !level.is_below(&self.config.level)
    }

    /// The sinks that `record` goes to, in configuration order: none when the
    /// record is less severe than the configured level, every configured sink otherwise.
    pub fn handle(&self, record: &LogRecord) -> (sinks: Vec<SinkType>)
        ensures
            passes(self.config.level, record.level) ==> sinks@ == self.config.sink_type@,
            !passes(self.config.level, record.level) ==> sinks@.len() == 0,
    {
        if !self.accepts(record.level) {
            return Vec::new();
        }
        let mut sinks: Vec<SinkType> = Vec::new();
        let mut i: usize = 0;
        while i < self.config.sink_type.len()
            invariant
                i <= self.config.sink_type.len(),
                sinks@ == self.config.sink_type@.take(i as int),
            decreases self.config.sink_type.len() - i,
        {
            sinks.push(self.config.sink_type[i]);
            assert(sinks@ =~= self.config.sink_type@.take(i + 1));
            i = i + 1;
        }
        assert(sinks@ =~= self.config.sink_type@);
        sinks
    }
}

/// Raising the severity of a record never stops it from passing: the levels
/// that pass form an upward-closed range starting at the configured level.
pub proof fn lemma_passing_is_upward_closed(min: LogLevel, a: LogLevel, b: LogLevel)
    requires
        passes(min, a),
        a.spec_rank() <= b.spec_rank(),
    ensures
        passes(min, b),
        passes(min, min),
        passes(min, LogLevel::Error),
{
}

/// The level filter in terms of the levels themselves: a record passes
/// exactly when it is at least as severe as the configured level. A threshold
/// of `Err` passes only `Err` records, a threshold of `Dbg` passes everything,
/// `Err` records always pass, two distinct levels never pass each other, and of
/// any two levels one passes the other.
pub proof fn lemma_filter_is_the_severity_order(min: LogLevel, level: LogLevel)
    ensures
        passes(min, level) <==> min.spec_rank() <= level.spec_rank(),
        level.spec_rank() < min.spec_rank() ==> !passes(min, level),
        passes(LogLevel::Error, level) <==> level == LogLevel::Error,
        passes(LogLevel::Dbg, level),
        passes(min, LogLevel::Error),
        passes(min, level) && passes(level, min) ==> level == min,
        passes(min, level) || passes(level, min),
{
}

/// Assembles records at the call site of a log statement.
pub struct LogEmitter {}

impl LogEmitter {
    /// A record stamped with the current time, carrying the module path,
    /// source file and line of the log statement, and the formatted message.
    pub fn emit(level: LogLevel, target: &str, file: &str, line: u32, body: String) -> (r:
        LogRecord)
        ensures
            r.timestamp.valid(),
            r.level == level,
            r.target@ == target@,
            r.file matches Some(f) && f@ == file@,
            r.line == Some(line),
            r.body == body,
    {
        let mut record = LogRecord::new(level, body);
        record.target = String::from_str(target);
        record.file = Some(String::from_str(file));
        record.line = Some(line);
        record
    }
}

} // verus!
