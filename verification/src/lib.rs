//! FlowLog: a modular log pipeline. Records are assembled by an emitter,
//! filtered by a processor against the configured level, and handed to
//! sinks: the console, rotating log files, and an S3 bucket fed through a
//! local staging file. Configuration sections are built from the values of
//! the configuration file, and a watcher decides when to reload them.

pub mod text;
pub mod level;
pub mod record;
pub mod sink;
pub mod config;
pub mod core_config;
pub mod processor;
pub mod console;
pub mod file_tools;
pub mod file_sink;
pub mod s3;
pub mod watcher;
