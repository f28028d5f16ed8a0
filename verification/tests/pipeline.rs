use flowlog::config::{ConfigTrait, LoadError, LogConfig, LogConfigFields};
use flowlog::core_config;
use flowlog::level::LogLevel;
use flowlog::processor::{LogEmitter, LogProcessor};
use flowlog::record::{LogRecord, Timestamp};
use flowlog::sink::{get_reload, ReloadTarget, SinkType};
use flowlog::watcher::{next_step, WatchEvent, WatchStep};

fn s(x: &str) -> String {
    x.to_string()
}

fn full_fields() -> LogConfigFields {
    LogConfigFields {
        level: Some(s("Warn")),
        enable_async: Some(true),
        buffer_size: Some(2048),
        sink_type: Some(vec![s("S3"), s("Console")]),
    }
}

#[test]
fn level_names_round_trip() {
    for l in [LogLevel::Dbg, LogLevel::Log, LogLevel::Warn, LogLevel::Error] {
        assert_eq!(LogLevel::from_name(l.name()), Some(l));
    }
    assert_eq!(LogLevel::Error.name(), "Err");
    assert_eq!(LogLevel::from_name("Err"), Some(LogLevel::Error));
    assert_eq!(LogLevel::from_name("warn"), None);
    assert_eq!(LogLevel::from_name(""), None);
    assert_eq!(LogLevel::from_name("Error"), None);
}

#[test]
fn level_order_is_dbg_log_warn_err() {
    assert!(LogLevel::Dbg.is_below(&LogLevel::Log));
    assert!(LogLevel::Log.is_below(&LogLevel::Warn));
    assert!(LogLevel::Warn.is_below(&LogLevel::Error));
    assert!(!LogLevel::Warn.is_below(&LogLevel::Warn));
    assert!(!LogLevel::Error.is_below(&LogLevel::Dbg));
    assert_eq!(LogLevel::Dbg.rank(), 0);
    assert_eq!(LogLevel::Error.rank(), 3);
    assert!(LogLevel::Dbg < LogLevel::Error);
}

#[test]
fn sink_names_round_trip() {
    for t in [SinkType::Console, SinkType::File, SinkType::S3, SinkType::Elastic] {
        assert_eq!(SinkType::from_name(t.name()), Some(t));
    }
    assert_eq!(SinkType::from_name("console"), None);
    assert!(!SinkType::Elastic.is_supported());
    assert!(SinkType::S3.is_supported());
}

#[test]
fn reload_gathers_the_three_services() {
    assert_eq!(get_reload(), vec![ReloadTarget::S3, ReloadTarget::Console, ReloadTarget::File]);
}

#[test]
fn pipe_config_default() {
    let c = LogConfig::default();
    assert_eq!(c.level, LogLevel::Log);
    assert!(!c.enable_async);
    assert_eq!(c.buffer_size, 1024);
    assert_eq!(c.sink_type, vec![SinkType::Console]);
}

#[test]
fn pipe_config_load_complete() {
    let c = LogConfig::load(full_fields()).unwrap();
    assert_eq!(c.level, LogLevel::Warn);
    assert!(c.enable_async);
    assert_eq!(c.buffer_size, 2048);
    assert_eq!(c.sink_type, vec![SinkType::S3, SinkType::Console]);
}

#[test]
fn pipe_config_load_errors() {
    let mut f = full_fields();
    f.level = Some(s("Verbose"));
    match LogConfig::load(f) {
        Err(LoadError::UnknownVariant(v)) => assert_eq!(v, "Verbose"),
        _ => panic!("expected an unknown level"),
    }
    let mut f = full_fields();
    f.sink_type = Some(vec![s("File"), s("Kafka"), s("Nope")]);
    match LogConfig::load(f) {
        Err(LoadError::UnknownVariant(v)) => assert_eq!(v, "Kafka"),
        _ => panic!("expected an unknown sink"),
    }
    let mut f = full_fields();
    f.enable_async = None;
    f.sink_type = None;
    match LogConfig::load(f) {
        Err(LoadError::MissingField(k)) => assert_eq!(k, "enable_async"),
        _ => panic!("expected a missing key"),
    }
    let f = LogConfigFields { level: None, enable_async: None, buffer_size: None, sink_type: None };
    match LogConfig::load(f) {
        Err(LoadError::MissingField(k)) => assert_eq!(k, "level"),
        _ => panic!("expected a missing key"),
    }
    let mut f = full_fields();
    f.level = None;
    f.sink_type = Some(vec![s("Kafka")]);
    match LogConfig::load(f) {
        Err(LoadError::UnknownVariant(v)) => assert_eq!(v, "Kafka"),
        _ => panic!("unknown variants are reported before missing keys"),
    }
}

#[test]
fn core_config_defaults() {
    let f = core_config::LogConfigFields { level: None, enable_async: None, buffer_size: None };
    let c = core_config::LogConfig::load(f).unwrap();
    assert_eq!(c.level, LogLevel::Log);
    assert!(!c.enable_async);
    assert_eq!(c.buffer_size, 1024);
    assert_eq!(core_config::default_level(), LogLevel::Log);
    assert!(!core_config::default_async());
    assert_eq!(core_config::default_buffer(), 1024);
    let f = core_config::LogConfigFields { level: Some(s("Dbg")), enable_async: None, buffer_size: Some(7) };
    let c = core_config::LogConfig::load(f).unwrap();
    assert_eq!(c.level, LogLevel::Dbg);
    assert_eq!(c.buffer_size, 7);
    let f = core_config::LogConfigFields { level: Some(s("Trace")), enable_async: None, buffer_size: None };
    match core_config::LogConfig::load(f) {
        Err(LoadError::UnknownVariant(v)) => assert_eq!(v, "Trace"),
        _ => panic!("expected an unknown level"),
    }
}

#[test]
fn processor_filters_by_level() {
    let p = LogProcessor::create_log_processor(LogConfig::load(full_fields()));
    let ts = Timestamp { millis: 0, offset_secs: 0 };
    let low = LogRecord::at(ts, LogLevel::Log, s("x"));
    let high = LogRecord::at(ts, LogLevel::Error, s("y"));
    let same = LogRecord::at(ts, LogLevel::Warn, s("z"));
    assert!(p.handle(&low).is_empty());
    assert_eq!(p.handle(&high), vec![SinkType::S3, SinkType::Console]);
    assert_eq!(p.handle(&same), vec![SinkType::S3, SinkType::Console]);
    assert!(!p.accepts(LogLevel::Dbg));
    assert!(p.accepts(LogLevel::Warn));
}

#[test]
fn processor_falls_back_to_default() {
    let p = LogProcessor::create_log_processor(Err(LoadError::Malformed(s("bad file"))));
    let ts = Timestamp { millis: 0, offset_secs: 0 };
    assert!(p.handle(&LogRecord::at(ts, LogLevel::Dbg, s("d"))).is_empty());
    assert_eq!(p.handle(&LogRecord::at(ts, LogLevel::Log, s("l"))), vec![SinkType::Console]);
    assert_eq!(p.config.buffer_size, 1024);
}

#[test]
fn record_new_is_stamped_now() {
    let before = chrono::Local::now().timestamp_millis();
    let r = LogRecord::new(LogLevel::Warn, s("body"));
    let after = chrono::Local::now().timestamp_millis();
    assert!(before <= r.timestamp.millis && r.timestamp.millis <= after);
    assert_eq!(r.timestamp.offset_secs, chrono::Local::now().offset().local_minus_utc());
    assert_eq!(r.level, LogLevel::Warn);
    assert_eq!(r.body, "body");
    assert_eq!(r.target, "");
    assert_eq!(r.file, None);
    assert_eq!(r.line, None);
}

#[test]
fn emitter_fills_location() {
    let r = LogEmitter::emit(LogLevel::Error, "app::db", "src/db.rs", 42, s("lost connection"));
    assert_eq!(r.level, LogLevel::Error);
    assert_eq!(r.target, "app::db");
    assert_eq!(r.file, Some(s("src/db.rs")));
    assert_eq!(r.line, Some(42));
    assert_eq!(r.body, "lost connection");
    assert!(r.timestamp.offset_secs.abs() < 86_400);
}

#[test]
fn watcher_steps() {
    match next_step(WatchEvent::Modified, false) {
        WatchStep::Reload { targets } => {
            assert_eq!(
                targets,
                vec![ReloadTarget::S3, ReloadTarget::Console, ReloadTarget::File, ReloadTarget::Processor]
            )
        }
        _ => panic!("a modification reloads"),
    }
    match next_step(WatchEvent::Modified, true) {
        WatchStep::Reload { .. } => {}
        _ => panic!("a modification reloads even when stopping"),
    }
    assert!(matches!(next_step(WatchEvent::Timeout, false), WatchStep::Continue));
    assert!(matches!(next_step(WatchEvent::Timeout, true), WatchStep::Stop));
    assert!(matches!(next_step(WatchEvent::Other, true), WatchStep::Continue));
    assert!(matches!(next_step(WatchEvent::Disconnected, false), WatchStep::Stop));
}
