use vstd::prelude::*;
use crate::config::{ConfigTrait, LoadError, unknown_level};
use crate::level::LogLevel;

verus! {

/// Core logger configuration, where every key falls back to a default when absent.
pub struct LogConfig {
    pub level: LogLevel,
    pub enable_async: bool,
    pub buffer_size: usize,
}

/// The core keys as found in the configuration file.
pub struct LogConfigFields {
    pub level: Option<String>,
    pub enable_async: Option<bool>,
    pub buffer_size: Option<usize>,
}

/// Level used when the configuration names none: `Log`.
pub fn default_level() -> (l: LogLevel)
    ensures
        l == LogLevel::Log,
{
    LogLevel::Log
}

/// Async mode used when the configuration says nothing: off.
pub fn default_async() -> (b: bool)
    ensures
        !b,
{
    false
}

/// Buffer size used when the configuration names none: 1024.
pub fn default_buffer() -> (n: usize)
    ensures
        n == 1024,
{
    1024
}

impl Default for LogConfig {
    /// Level `Log`, synchronous, a buffer of 1024 records.
    fn default() -> (c: Self)
        ensures
            c.level == LogLevel::Log,
            !c.enable_async,
            c.buffer_size == 1024,
    {
        LogConfig { level: default_level(), enable_async: default_async(), buffer_size: default_buffer() }
    }
}

impl ConfigTrait for LogConfig {
    type Fields = LogConfigFields;

    /// Builds the core configuration: absent keys take their defaults; a level
    /// that is present must name a level.
    fn load(fields: LogConfigFields) -> (r: Result<LogConfig, LoadError>)
        ensures
            match r {
                Ok(c) => {
                    &&& unknown_level(fields.level) is None
                    &&& c.level == match fields.level {
                        Some(l) => LogLevel::spec_from_name(l@)->0,
                        None => LogLevel::Log,
                    }
                    &&& c.enable_async == match fields.enable_async {
                        Some(b) => b,
                        None => false,
                    }
                    &&& c.buffer_size == match fields.buffer_size {
                        Some(n) => n,
                        None => 1024,
                    }
                },
                Err(LoadError::UnknownVariant(v)) => unknown_level(fields.level) == Some(v@),
                Err(_) => false,
            },
    {
        let level = match &fields.level {
            Some(l) => match LogLevel::from_name(l.as_str()) {
                Some(v) => v,
                None => {
                    return Err(LoadError::UnknownVariant(l.clone()));
                },
            },
            None => default_level(),
        };
        let enable_async = match fields.enable_async {
            Some(b) => b,
            None => default_async(),
        };
        let buffer_size = match fields.buffer_size {
            Some(n) => n,
            None => default_buffer(),
        };
        Ok(LogConfig { level, enable_async, buffer_size })
    }
}

} // verus!
