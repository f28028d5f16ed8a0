use flowlog::config::{ConfigTrait, FileConfig, FileConfigFields, LoadError, S3Config, S3ConfigFields};
use flowlog::console::{local_ms_of_day, ConsoleSink};
use flowlog::file_sink::{FilePlan, FileSink};
use flowlog::file_tools::{get_newest_file, get_oldest_file, get_sorted_files, FileEntry};
use flowlog::level::LogLevel;
use flowlog::record::{LogRecord, Timestamp};
use flowlog::s3::{
    folder_prefix, join_key, list_step, list_target, listed_files, put_data_target, put_file_target,
    S3Error, TmpFile, TmpStep,
};

fn s(x: &str) -> String {
    x.to_string()
}

fn file(name: &str) -> FileEntry {
    FileEntry { name: s(name), is_file: true }
}

fn dir(name: &str) -> FileEntry {
    FileEntry { name: s(name), is_file: false }
}

fn valid_s3() -> S3Config {
    S3Config {
        access_key: s("ak"),
        secret_key: s("sk"),
        providor_name: s("freeman"),
        bucket: s("log-data"),
        prefix: s("test"),
        region: s("us-east-1"),
        end_point_url: s("http://127.0.0.1:9000"),
        force_path_style: true,
    }
}

fn sink(max: u64, rot: usize) -> FileSink {
    FileSink::create_file_sink(Ok(FileConfig { dir_path: s("./log"), max_size: Some(max), rotate_num: Some(rot) }))
}

#[test]
fn sorted_files_keep_only_log_files() {
    let entries = vec![
        file("log-2024-05-02.log"),
        file("notes.txt"),
        file("log-2024-05-01.log"),
        dir("log-archive"),
        file("log-2023-12-31.log"),
        file("xlog-2024.log"),
    ];
    assert_eq!(
        get_sorted_files(&entries),
        vec![s("log-2023-12-31.log"), s("log-2024-05-01.log"), s("log-2024-05-02.log")]
    );
    assert_eq!(get_oldest_file(&entries), Some(s("log-2023-12-31.log")));
    assert_eq!(get_newest_file(&entries), Some(s("log-2024-05-02.log")));
}

#[test]
fn sorted_files_of_empty_listing() {
    let entries = vec![file("a.txt"), dir("log-")];
    assert!(get_sorted_files(&entries).is_empty());
    assert_eq!(get_oldest_file(&entries), None);
    assert_eq!(get_newest_file(&entries), None);
    let one = vec![file("log-")];
    assert_eq!(get_oldest_file(&one), get_newest_file(&one));
}

#[test]
fn sorted_files_order_by_characters() {
    let entries = vec![file("log-b"), file("log-ab"), file("log-a"), file("log-B"), file("log-é")];
    assert_eq!(
        get_sorted_files(&entries),
        vec![s("log-B"), s("log-a"), s("log-ab"), s("log-b"), s("log-é")]
    );
}

#[test]
fn file_sink_minimum_config() {
    assert!(sink(524288, 1).is_enabled());
    assert!(!sink(524287, 3).is_enabled());
    assert!(!sink(1 << 20, 0).is_enabled());
    assert_eq!(sink(1024, 3).config().max_size, None);
    let none = FileSink::create_file_sink(Ok(FileConfig { dir_path: s("./log"), max_size: None, rotate_num: Some(2) }));
    assert!(!none.is_enabled());
    let empty_dir = FileSink::create_file_sink(Ok(FileConfig { dir_path: s(""), max_size: Some(1 << 20), rotate_num: Some(2) }));
    assert!(!empty_dir.is_enabled());
    let failed = FileSink::create_file_sink(Err(LoadError::MissingField(s("dir_path"))));
    assert!(!failed.is_enabled());
    let small = sink(1024, 3);
    assert_eq!(small.config().dir_path, "");
    assert_eq!(small.config().max_size, None);
    assert_eq!(small.config().rotate_num, None);
}

#[test]
fn file_names_carry_the_date() {
    assert_eq!(FileSink::create_file("2024-05-01"), "log-2024-05-01.log");
}

#[test]
fn file_plan_appends_while_small() {
    let entries = vec![file("log-2024-05-01.log"), file("log-2024-05-02.log")];
    match sink(1 << 20, 3).choose_file(&entries, 100, "2024-05-03") {
        FilePlan::Append { file } => assert_eq!(file, "log-2024-05-02.log"),
        _ => panic!("expected append"),
    }
}

#[test]
fn file_plan_rotates_when_full() {
    let entries = vec![file("log-2024-05-01.log"), file("log-2024-05-02.log"), file("other")];
    match sink(1 << 20, 2).choose_file(&entries, 1 << 20, "2024-05-03") {
        FilePlan::Create { file, remove } => {
            assert_eq!(file, "log-2024-05-03.log");
            assert_eq!(remove, Some(s("log-2024-05-01.log")));
        }
        _ => panic!("expected create"),
    }
    match sink(1 << 20, 3).choose_file(&entries, 1 << 20, "2024-05-03") {
        FilePlan::Create { file, remove } => {
            assert_eq!(file, "log-2024-05-03.log");
            assert_eq!(remove, None);
        }
        _ => panic!("expected create"),
    }
}

#[test]
fn file_plan_same_day_full_file_is_kept() {
    let entries = vec![file("log-2024-05-02.log"), file("log-2024-05-03.log")];
    match sink(1 << 20, 3).choose_file(&entries, 1 << 20, "2024-05-03") {
        FilePlan::Create { file, remove } => {
            assert_eq!(file, "log-2024-05-03_1.log");
            assert_eq!(remove, None);
        }
        _ => panic!("expected create"),
    }
    match sink(1 << 20, 2).choose_file(&entries, 1 << 20, "2024-05-03") {
        FilePlan::Create { file, remove } => {
            assert_eq!(file, "log-2024-05-03_1.log");
            assert_eq!(remove, Some(s("log-2024-05-02.log")));
        }
        _ => panic!("expected create"),
    }
    let entries = vec![file("log-2024-05-03.log"), file("log-2024-05-03_1.log")];
    match sink(1 << 20, 5).choose_file(&entries, 1 << 20, "2024-05-03") {
        FilePlan::Create { file, .. } => assert_eq!(file, "log-2024-05-03_1_1.log"),
        _ => panic!("expected create"),
    }
    let entries = vec![file("log-custom")];
    match sink(1 << 20, 5).choose_file(&entries, 1 << 20, "custom") {
        FilePlan::Create { file, .. } => assert_eq!(file, "log-custom.log"),
        _ => panic!("expected create"),
    }
    let entries = vec![file("log-x"), file("log-2024-05-03.log")];
    match sink(1 << 20, 5).choose_file(&entries, 1 << 20, "2024-05-03") {
        FilePlan::Create { file, .. } => assert_eq!(file, "log-x_1.log"),
        _ => panic!("expected create"),
    }
}

#[test]
fn same_day_rotations_keep_full_files() {
    let rot = 3;
    let sink = sink(1 << 20, rot);
    let mut dir: Vec<String> = vec![];
    for _ in 0..6 {
        let entries: Vec<FileEntry> = dir.iter().map(|n| file(n)).collect();
        match sink.choose_file(&entries, 1 << 20, "2024-05-03") {
            FilePlan::Create { file, remove } => {
                assert!(!dir.contains(&file));
                dir.push(file.clone());
                if let Some(old) = remove {
                    dir.retain(|n| *n != old);
                }
                let entries: Vec<FileEntry> = dir.iter().map(|n| file_entry(n)).collect();
                assert_eq!(get_newest_file(&entries), Some(file));
                assert!(get_sorted_files(&entries).len() <= rot);
            }
            _ => panic!("expected create"),
        }
    }
}

#[test]
fn rotation_count_is_exact() {
    let old = vec![file("log-2024-05-01.log"), file("log-2024-05-02.log")];
    for rot in [2usize, 3] {
        match sink(1 << 20, rot).choose_file(&old, 1 << 20, "2024-05-03") {
            FilePlan::Create { file, remove } => {
                assert_eq!(file, "log-2024-05-03.log");
                let mut dir: Vec<String> = old.iter().map(|e| e.name.clone()).collect();
                dir.push(file);
                if let Some(o) = remove {
                    assert_eq!(o, "log-2024-05-01.log");
                    dir.retain(|n| *n != o);
                }
                let expected = if old.len() < rot { old.len() + 1 } else { old.len() };
                assert_eq!(dir.len(), expected);
            }
            _ => panic!("expected create"),
        }
    }
}

fn file_entry(name: &str) -> FileEntry {
    file(name)
}

#[test]
fn file_plan_clock_set_back_follows_newest() {
    let entries = vec![file("log-2024-05-02.log")];
    match sink(1 << 20, 1).choose_file(&entries, 1 << 20, "2024-05-01") {
        FilePlan::Create { file, remove } => {
            assert_eq!(file, "log-2024-05-02_1.log");
            assert_eq!(remove, Some(s("log-2024-05-02.log")));
        }
        _ => panic!("expected create"),
    }
}

#[test]
fn file_plan_counts_log_directories() {
    let entries = vec![file("log-2024-05-01.log"), dir("log-old")];
    match sink(1 << 20, 2).choose_file(&entries, 1 << 20, "2024-05-02") {
        FilePlan::Create { remove, .. } => assert_eq!(remove, Some(s("log-2024-05-01.log"))),
        _ => panic!("expected create"),
    }
}

#[test]
fn file_plan_empty_and_disabled() {
    let entries = vec![file("readme")];
    match sink(1 << 20, 1).choose_file(&entries, 0, "2024-05-01") {
        FilePlan::Create { file, remove } => {
            assert_eq!(file, "log-2024-05-01.log");
            assert_eq!(remove, None);
        }
        _ => panic!("expected create"),
    }
    assert!(matches!(sink(10, 1).choose_file(&entries, 0, "2024-05-01"), FilePlan::Disabled));
}

#[test]
fn file_config_load() {
    let c = FileConfig::load(FileConfigFields { dir_path: Some(s("./log")), max_size: Some(10485760), rotate_num: None }).unwrap();
    assert_eq!(c.dir_path, "./log");
    assert_eq!(c.max_size, Some(10485760));
    assert_eq!(c.rotate_num, None);
    match FileConfig::load(FileConfigFields { dir_path: None, max_size: Some(1), rotate_num: Some(1) }) {
        Err(LoadError::MissingField(k)) => assert_eq!(k, "dir_path"),
        _ => panic!("expected a missing directory"),
    }
    let d = FileConfig::default();
    assert_eq!(d.dir_path, "");
    assert_eq!(d.max_size, None);
}

#[test]
fn console_body_is_cut_after_twenty_chars() {
    assert_eq!(ConsoleSink::display_body("short"), "short");
    assert_eq!(ConsoleSink::display_body("01234567890123456789"), "01234567890123456789");
    assert_eq!(ConsoleSink::display_body("0123456789012345678901"), "01234567890123456789...");
    assert_eq!(ConsoleSink::display_body("ééééééééééééééééééééé"), "éééééééééééééééééééé...");
    assert_eq!(ConsoleSink::display_body(""), "");
}

#[test]
fn console_line_format() {
    let c = ConsoleSink {};
    let r = LogRecord::at(Timestamp { millis: 0, offset_secs: 0 }, LogLevel::Dbg, s("hi"));
    assert_eq!(c.handle(&r), "[00:00:00.000] [Dbg] (unknown:0) - hi");
    let mut r = LogRecord::at(Timestamp { millis: 3_723_004, offset_secs: 3600 }, LogLevel::Error, "A".repeat(25));
    r.file = Some(s("src/main.rs"));
    r.line = Some(4_294_967_295);
    assert_eq!(c.handle(&r), "[02:02:03.004] [Err] (src/main.rs:4294967295) - AAAAAAAAAAAAAAAAAAAA...");
    let r = LogRecord::at(Timestamp { millis: -1, offset_secs: 0 }, LogLevel::Warn, s("w"));
    assert_eq!(c.handle(&r), "[23:59:59.999] [Warn] (unknown:0) - w");
    let r = LogRecord::at(Timestamp { millis: 1_000, offset_secs: -7200 }, LogLevel::Log, s("l"));
    assert_eq!(c.handle(&r), "[22:00:01.000] [Log] (unknown:0) - l");
}

#[test]
fn local_time_of_day() {
    assert_eq!(local_ms_of_day(&Timestamp { millis: 86_400_000, offset_secs: 0 }), 0);
    assert_eq!(local_ms_of_day(&Timestamp { millis: -86_400_001, offset_secs: 0 }), 86_399_999);
    assert_eq!(local_ms_of_day(&Timestamp { millis: i64::MIN, offset_secs: -86_399 }), ((i64::MIN as i128 - 86_399_000).rem_euclid(86_400_000)) as u32);
    assert_eq!(local_ms_of_day(&Timestamp { millis: i64::MAX, offset_secs: 86_399 }), ((i64::MAX as i128 + 86_399_000).rem_euclid(86_400_000)) as u32);
}

#[test]
fn s3_config_validity() {
    assert!(valid_s3().is_valid());
    assert!(!S3Config::default().is_valid());
    let d = S3Config::default();
    assert_eq!(d.region, "us-east-1");
    assert!(d.force_path_style);
    let mut c = valid_s3();
    c.end_point_url = s("");
    assert!(!c.is_valid());
    let mut c = valid_s3();
    c.providor_name = s("");
    c.region = s("");
    assert!(c.is_valid());
}

#[test]
fn s3_config_load() {
    let f = S3ConfigFields {
        access_key: Some(s("ak")),
        secret_key: Some(s("sk")),
        providor_name: None,
        provider_name: None,
        bucket: Some(s("b")),
        prefix: Some(s("p")),
        region: None,
        end_point_url: Some(s("e")),
        force_path_style: Some(false),
    };
    match S3Config::load(f) {
        Err(LoadError::MissingField(k)) => assert_eq!(k, "provider_name"),
        _ => panic!("expected a missing key"),
    }
    let f = S3ConfigFields {
        access_key: Some(s("ak")),
        secret_key: Some(s("sk")),
        providor_name: Some(s("freeman")),
        provider_name: Some(s("other")),
        bucket: Some(s("b")),
        prefix: Some(s("p")),
        region: Some(s("eu")),
        end_point_url: Some(s("e")),
        force_path_style: Some(false),
    };
    let c = S3Config::load(f).unwrap();
    assert_eq!(c.providor_name, "freeman");
    assert_eq!(c.region, "eu");
    assert!(!c.force_path_style);
    assert!(c.is_valid());
}

#[test]
fn s3_config_load_readme_example() {
    let f = S3ConfigFields {
        access_key: Some(s("")),
        secret_key: Some(s("")),
        providor_name: None,
        provider_name: Some(s("freeman")),
        bucket: Some(s("log-data")),
        prefix: Some(s("test")),
        region: Some(s("us-east-1")),
        end_point_url: Some(s("")),
        force_path_style: Some(true),
    };
    let c = S3Config::load(f).unwrap();
    assert_eq!(c.providor_name, "freeman");
    assert_eq!(c.bucket, "log-data");
    assert_eq!(c.prefix, "test");
    assert_eq!(c.region, "us-east-1");
    assert_eq!(c.end_point_url, "");
    assert!(c.force_path_style);
}

#[test]
fn s3_listing_pages() {
    let mut files = vec![s("test/a.log")];
    let next = list_step(&mut files, vec![Some(s("test/b.log")), Some(s("test/d/"))], Some(true), Some(s("tok")));
    assert_eq!(next, Some(s("tok")));
    let next = list_step(&mut files, vec![None, Some(s("test/c.log"))], Some(false), Some(s("tok2")));
    assert_eq!(next, None);
    assert_eq!(files, vec![s("test/a.log"), s("test/b.log"), s("test/c.log")]);
    assert_eq!(list_step(&mut files, vec![], None, Some(s("t"))), None);
    assert_eq!(list_step(&mut files, vec![], Some(true), None), None);
}

#[test]
fn s3_keys_have_one_separator() {
    assert_eq!(join_key("test", "a.log"), "test/a.log");
    assert_eq!(join_key("test/", "a.log"), "test/a.log");
    assert_eq!(join_key("", "a.log"), "/a.log");
    assert_eq!(folder_prefix("test"), "test/");
    assert_eq!(folder_prefix("test/"), "test/");
    assert_eq!(folder_prefix(&folder_prefix("x")), "x/");
}

#[test]
fn s3_targets() {
    let t = put_file_target(&valid_s3(), ".tmp_log_1.log");
    assert_eq!(t.bucket, "log-data");
    assert_eq!(t.key, "test/.tmp_log_1.log");
    let t = put_file_target(&S3Config::default(), "x");
    assert_eq!(t.key, "/x");
    let t = put_data_target(&valid_s3(), "test.log").ok().unwrap();
    assert_eq!(t.key, "test/test.log");
    assert!(matches!(put_data_target(&valid_s3(), ""), Err(S3Error::EmptyTarget)));
    assert!(matches!(put_data_target(&S3Config::default(), ""), Err(S3Error::InvalidConfig)));
    let t = list_target(&valid_s3()).ok().unwrap();
    assert_eq!(t.key, "test/");
    assert!(matches!(list_target(&S3Config::default()), Err(S3Error::InvalidConfig)));
}

#[test]
fn s3_listing_keeps_files() {
    let keys = vec![Some(s("test/")), Some(s("test/a.log")), None, Some(s("test/sub/")), Some(s("test/b.log"))];
    assert_eq!(listed_files(keys), vec![s("test/a.log"), s("test/b.log")]);
    assert!(listed_files(vec![]).is_empty());
}

#[test]
fn tmp_file_names() {
    assert_eq!(TmpFile::generate_tmp_filename(1_700_000_000_123), ".tmp_log_1700000000123.log");
    assert_eq!(TmpFile::generate_tmp_filename(0), ".tmp_log_0.log");
    let names = vec![s("Cargo.toml"), s(".tmp_log_5.txt"), s(".tmp_log_7.log"), s(".tmp_log_9.log")];
    assert_eq!(TmpFile::find_existing_tmp_file(&names), Some(s(".tmp_log_7.log")));
    assert_eq!(TmpFile::find_existing_tmp_file(&vec![s("a"), s(".log")]), None);
    let generated = TmpFile::generate_tmp_filename(42);
    assert_eq!(TmpFile::find_existing_tmp_file(&vec![generated.clone()]), Some(generated));
}

#[test]
fn tmp_file_lifecycle() {
    let mut t = TmpFile { name: s("") };
    assert!(!t.init_tmp_file(Some(s(".tmp_log_1.log")), s(".tmp_log_2.log")));
    assert_eq!(t.name, ".tmp_log_1.log");
    assert!(!t.init_tmp_file(None, s(".tmp_log_3.log")));
    assert_eq!(t.name, ".tmp_log_1.log");
    let mut u = TmpFile { name: s("") };
    assert!(u.init_tmp_file(None, s(".tmp_log_3.log")));
    assert_eq!(u.name, ".tmp_log_3.log");
    match t.handle(10, 10) {
        TmpStep::Write { file } => assert_eq!(file, ".tmp_log_1.log"),
        _ => panic!("a file at the limit is still written to"),
    }
    match t.handle(11, 10) {
        TmpStep::UploadAndRotate { upload } => assert_eq!(upload, ".tmp_log_1.log"),
        _ => panic!("a file past the limit is uploaded"),
    }
    assert_eq!(t.previous_file(), Some(s(".tmp_log_1.log")));
    t.update_tmp_file_name(s(".tmp_log_4.log"), false);
    assert_eq!(t.name, ".tmp_log_1.log");
    t.update_tmp_file_name(s(".tmp_log_4.log"), true);
    assert_eq!(t.name, ".tmp_log_4.log");
    let mut e = TmpFile { name: s("") };
    assert_eq!(e.previous_file(), None);
    e.update_tmp_file_name(s(".tmp_log_5.log"), true);
    assert_eq!(e.name, ".tmp_log_5.log");
}

#[test]
fn rotation_never_keeps_more_than_rotate_num() {
    // Simulates a directory through many days of full files.
    let rot = 3;
    let sink = sink(1 << 20, rot);
    let mut dir: Vec<String> = vec![s("notes.txt")];
    for day in 1..=12 {
        let date = format!("2024-05-{:02}", day);
        let entries: Vec<FileEntry> = dir.iter().map(|n| file(n)).collect();
        let newest_size = if get_newest_file(&entries).is_some() { 1 << 20 } else { 0 };
        match sink.choose_file(&entries, newest_size, &date) {
            FilePlan::Create { file, remove } => {
                if !dir.contains(&file) {
                    dir.push(file.clone());
                }
                if let Some(old) = remove {
                    dir.retain(|n| *n != old);
                }
                assert!(dir.contains(&file));
            }
            _ => panic!("a full file is always rotated"),
        }
        let entries: Vec<FileEntry> = dir.iter().map(|n| file(n)).collect();
        let kept = get_sorted_files(&entries);
        assert!(kept.len() <= rot);
        assert_eq!(get_newest_file(&entries), Some(FileSink::create_file(&date)));
    }
    let entries: Vec<FileEntry> = dir.iter().map(|n| file(n)).collect();
    assert_eq!(
        get_sorted_files(&entries),
        vec![s("log-2024-05-10.log"), s("log-2024-05-11.log"), s("log-2024-05-12.log")]
    );
}

#[test]
fn file_plan_uses_todays_date() {
    let today = chrono::Local::now().format("%Y-%m-%d").to_string();
    let entries = vec![file("log-1999-01-01.log")];
    match sink(1 << 20, 5).handle(&entries, 1 << 20) {
        FilePlan::Create { file, remove } => {
            let after = chrono::Local::now().format("%Y-%m-%d").to_string();
            assert!(file == FileSink::create_file(&today) || file == FileSink::create_file(&after));
            assert_eq!(remove, None);
        }
        _ => panic!("expected create"),
    }
}

#[test]
fn created_file_is_listed() {
    let name = FileSink::create_file("2030-01-01");
    let entries = vec![file("a"), FileEntry { name: name.clone(), is_file: true }];
    assert_eq!(get_sorted_files(&entries), vec![name]);
}
