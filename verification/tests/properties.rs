use exec_logger::config::{Identity, LoggerConfiguration};
use exec_logger::log;
use exec_logger::log_level::LogLevel;
use exec_logger::logger::Logger;
use exec_logger::retention::{select_count_victims, RunFolder};
use exec_logger::timestamp::{parse_run_name, render_run_name, Timestamp};

fn fixed_identity() -> Identity {
    Identity {
        exe_name: String::from("exe"),
        system_name: String::from("sys"),
        user_name: String::from("user"),
    }
}

fn fixed_logger(filter: Option<LogLevel>) -> Logger {
    let config = LoggerConfiguration::new(
        String::from("unused_root"),
        "txt",
        None,
        None,
        filter,
        fixed_identity(),
    );
    Logger {
        config,
        log_file_path: String::from("unused_root/x/execution_log.txt"),
    }
}

#[test]
fn format_round_trip_all_placeholders() {
    let logger = fixed_logger(None);
    let line = logger.format_with_timestamp(
        "hello world",
        &LogLevel::Info,
        "2024-01-02 10:20:30+0000",
    );
    assert_eq!(
        line,
        "2024-01-02 10:20:30+0000 | exe | sys | user | INFO    | hello world\n"
    );
    // exactly one trailing newline
    assert!(!line.ends_with("\n\n"));
}

#[test]
fn format_pads_and_keeps_long_level_names() {
    let logger = fixed_logger(None);
    let stat = log::create_custom_level("STAT", 25);
    let line = logger.format_with_timestamp("m", &stat, "T");
    assert_eq!(line, "T | exe | sys | user | STAT    | m\n");
    let long = log::create_custom_level("VERYLONGLEVEL", 25);
    let line2 = logger.format_with_timestamp("m", &long, "T");
    assert_eq!(line2, "T | exe | sys | user | VERYLONGLEVEL | m\n");
}

#[test]
fn format_keeps_unrecognized_tokens() {
    let mut config = LoggerConfiguration::new(
        String::from("unused_root"),
        "txt",
        None,
        None,
        None,
        fixed_identity(),
    );
    config
        .set_message_format("{WHAT} {LEVEL}|{MESSAGE}")
        .unwrap();
    let logger = Logger {
        config,
        log_file_path: String::from("unused_root/x/execution_log.txt"),
    };
    let line = logger.format_with_timestamp("msg", &LogLevel::Error, "T");
    assert_eq!(line, "{WHAT} ERROR  |msg\n");
}

#[test]
fn trailing_newline_is_not_doubled() {
    let mut config = LoggerConfiguration::new(
        String::from("unused_root"),
        "txt",
        None,
        None,
        None,
        fixed_identity(),
    );
    config.set_message_format("{LEVEL} {MESSAGE}\n").unwrap();
    let logger = Logger {
        config,
        log_file_path: String::from("unused_root/x/execution_log.txt"),
    };
    let line = logger.format_with_timestamp("hi", &LogLevel::Warn, "T");
    assert_eq!(line, "WARN    hi\n");
    assert!(!line.ends_with("\n\n"));
}

#[test]
fn template_without_placeholders_is_kept_verbatim() {
    let mut logger = fixed_logger(None);
    logger.config.message_format = Some(String::from("plain text, no tokens"));
    let line = logger.format_with_timestamp("ignored", &LogLevel::Info, "ignored");
    assert_eq!(line, "plain text, no tokens\n");
}

#[test]
fn default_configuration_values() {
    let config = LoggerConfiguration::default();
    assert_eq!(config.get_log_dir(), "./logs");
    assert_eq!(config.get_file_extension(), "txt");
    assert!(config.get_days_stored().is_none());
    assert!(config.get_executions_stored().is_none());
    assert!(config.get_filter_level().is_none());
}

#[test]
fn rejected_templates_name_the_missing_placeholder() {
    let mut config = LoggerConfiguration::new(
        String::from("unused_root"),
        "txt",
        None,
        None,
        None,
        fixed_identity(),
    );
    match config.set_message_format("no tokens at all") {
        Err(exec_logger::ConfigError::InvalidFormat(m)) => {
            assert_eq!(m, "Message format must contain {MESSAGE}");
        },
        Ok(_) => panic!("a template without placeholders must be rejected"),
    }
    match config.set_message_format("{MESSAGE} but no level") {
        Err(exec_logger::ConfigError::InvalidFormat(m)) => {
            assert_eq!(m, "Message format must contain {LEVEL}");
        },
        Ok(_) => panic!("a template without {{LEVEL}} must be rejected"),
    }
    match config.set_timestamp_format("%") {
        Err(exec_logger::ConfigError::InvalidFormat(m)) => {
            assert_eq!(m, "Invalid timestamp format");
        },
        Ok(_) => panic!("a lone percent sign must be rejected"),
    }
}

#[test]
fn initialize_fails_on_uncreatable_root() {
    let registry = log::Registry::new();
    let config = LoggerConfiguration::new(
        String::from("/proc/no_such_place/logs"),
        "txt",
        None,
        None,
        None,
        Identity::resolve(None, None),
    );
    match log::initialize(&registry, config) {
        Err(exec_logger::LoggerError::IoError(_)) => {},
        Ok(_) => panic!("initialization under /proc must fail"),
    }
    // the failed initialization installed nothing
    assert!(log::get_log_file_path(&registry).is_none());
}

#[test]
fn message_format_setter_validates() {
    let mut config = LoggerConfiguration::new(
        String::from("unused_root"),
        "txt",
        None,
        None,
        None,
        fixed_identity(),
    );
    let default_format =
        "{TIMESTAMP} | {EXE_NAME} | {SYSTEM_NAME} | {USER_NAME} | {LEVEL} | {MESSAGE}";
    assert_eq!(config.get_message_format(), default_format);

    // missing {MESSAGE}
    assert!(config.set_message_format("{LEVEL} only").is_err());
    assert_eq!(config.get_message_format(), default_format);

    // missing {LEVEL}
    assert!(config.set_message_format("{MESSAGE} only").is_err());
    assert_eq!(config.get_message_format(), default_format);

    // both present, anything else around them is fine
    assert!(config.set_message_format("x{LEVEL}y{MESSAGE}z").is_ok());
    assert_eq!(config.get_message_format(), "x{LEVEL}y{MESSAGE}z");

    // a later rejected update keeps the accepted one
    assert!(config.set_message_format("nothing").is_err());
    assert_eq!(config.get_message_format(), "x{LEVEL}y{MESSAGE}z");
}

#[test]
fn timestamp_format_setter_validates() {
    let mut config = LoggerConfiguration::new(
        String::from("unused_root"),
        "txt",
        None,
        None,
        None,
        fixed_identity(),
    );
    assert_eq!(config.get_timestamp_format(), "%Y-%m-%d %H:%M:%S%z");

    // a lone trailing percent sign cannot render
    assert!(config.set_timestamp_format("%Y %").is_err());
    assert_eq!(config.get_timestamp_format(), "%Y-%m-%d %H:%M:%S%z");

    assert!(config.set_timestamp_format("%y-%m-%d").is_ok());
    assert_eq!(config.get_timestamp_format(), "%y-%m-%d");
}

#[test]
fn filter_follows_severity() {
    let mut config = LoggerConfiguration::new(
        String::from("unused_root"),
        "txt",
        None,
        None,
        None,
        fixed_identity(),
    );
    assert!(!config.filters_out(&LogLevel::Trace));
    config.set_filter_level(LogLevel::Info);
    assert!(config.filters_out(&LogLevel::Trace));
    assert!(config.filters_out(&LogLevel::Debug));
    assert!(!config.filters_out(&LogLevel::Info));
    assert!(!config.filters_out(&LogLevel::Warn));
    assert!(!config.filters_out(&LogLevel::Error));
    // two custom levels sharing a severity rank equal
    assert!(!config.filters_out(&log::create_custom_level("EQ", 30)));
    assert!(config.filters_out(&log::create_custom_level("STAT", 25)));
}

#[test]
fn levels_order_by_severity() {
    assert!(LogLevel::Trace < LogLevel::Debug);
    assert!(LogLevel::Debug < LogLevel::Info);
    assert!(LogLevel::Info < LogLevel::Warn);
    assert!(LogLevel::Warn < LogLevel::Error);
    assert!(log::create_custom_level("STAT", 25) < LogLevel::Info);
    // two custom levels sharing a severity order equal, with different names
    let a = log::create_custom_level("A", 25);
    let b = log::create_custom_level("B", 25);
    assert_eq!(a.partial_cmp(&b), Some(std::cmp::Ordering::Equal));
    assert!(a != b);
}

#[test]
fn custom_level_below_filter_is_suppressed() {
    let _ = fs_err::remove_dir_all("/tmp/exec_logger_stat/test_files");
    let stat = log::create_custom_level("STAT", 25);
    let config = LoggerConfiguration::new(
        String::from("/tmp/exec_logger_stat/test_files"),
        "LOG",
        None,
        None,
        Some(LogLevel::Info),
        Identity::resolve(None, None),
    );
    let registry = log::Registry::new();
    log::initialize(&registry, config).unwrap();
    log::custom(&registry, "a STAT line", &stat);
    log::info(&registry, "an INFO line");
    let contents =
        fs_err::read_to_string(log::get_log_file_path(&registry).unwrap()).unwrap();
    assert!(!contents.contains("a STAT line"));
    assert!(contents.contains("an INFO line"));
    let _ = fs_err::remove_dir_all("/tmp/exec_logger_stat/test_files");
}

#[test]
fn logging_before_initialize_is_a_no_op() {
    let registry = log::Registry::new();
    log::error(&registry, "pre-init");
    assert!(log::get_log_file_path(&registry).is_none());
}

#[test]
fn parse_recognizes_only_the_fixed_pattern() {
    assert!(parse_run_name("2024-02-29 12_00_00").is_some()); // leap day
    assert!(parse_run_name("2023-02-29 12_00_00").is_none()); // no leap day
    assert!(parse_run_name("2023-13-01 00_00_00").is_none()); // no 13th month
    assert!(parse_run_name("2023-04-31 00_00_00").is_none()); // April has 30 days
    assert!(parse_run_name("2023-01-01 24_00_00").is_none()); // no hour 24
    assert!(parse_run_name("2023-01-01 00:00:00").is_none()); // wrong separators
    assert!(parse_run_name("2023-01-01 00_00_0").is_none()); // too short
    assert!(parse_run_name("some_folder").is_none()); // foreign
    let ts = parse_run_name("2021-12-31 23_59_59").unwrap();
    assert_eq!(
        ts,
        Timestamp { year: 2021, month: 12, day: 31, hour: 23, minute: 59, second: 59 }
    );
    assert_eq!(render_run_name(&ts), "2021-12-31 23_59_59");
}

#[test]
fn names_sort_like_timestamps() {
    let names = [
        "2019-12-31 23_59_59",
        "2020-01-01 00_00_00",
        "2020-01-01 00_00_01",
        "2020-01-01 00_01_00",
        "2020-01-01 01_00_00",
        "2020-01-02 00_00_00",
        "2020-02-01 00_00_00",
        "2021-01-01 00_00_00",
    ];
    for i in 0..names.len() {
        for j in 0..names.len() {
            let a = parse_run_name(names[i]).unwrap();
            let b = parse_run_name(names[j]).unwrap();
            assert_eq!(a.is_before(&b), names[i] < names[j]);
        }
    }
}

fn folder(name: &str) -> RunFolder {
    RunFolder {
        ts: parse_run_name(name).unwrap(),
        name: String::from(name),
    }
}

#[test]
fn count_policy_dooms_the_oldest() {
    let folders = vec![
        folder("2020-01-05 00_00_00"),
        folder("2020-01-02 00_00_00"),
        folder("2020-01-07 00_00_00"),
        folder("2020-01-01 00_00_00"),
        folder("2020-01-04 00_00_00"),
        folder("2020-01-03 00_00_00"),
        folder("2020-01-06 00_00_00"),
    ];
    // keeping 5 runs with one slot reserved for the new one dooms 3 of 7
    let (victims, kept) = select_count_victims(folders, 5);
    let victim_names: Vec<String> = victims.into_iter().map(|f| f.name).collect();
    assert_eq!(
        victim_names,
        vec![
            "2020-01-01 00_00_00",
            "2020-01-02 00_00_00",
            "2020-01-03 00_00_00"
        ]
    );
    let mut kept_names: Vec<String> = kept.into_iter().map(|f| f.name).collect();
    kept_names.sort();
    assert_eq!(
        kept_names,
        vec![
            "2020-01-04 00_00_00",
            "2020-01-05 00_00_00",
            "2020-01-06 00_00_00",
            "2020-01-07 00_00_00"
        ]
    );
}

#[test]
fn retention_by_count_on_disk() {
    let root = "/tmp/exec_logger_count/test_files";
    let _ = fs_err::remove_dir_all(root);
    let old_names = [
        "2020-01-01 00_00_00",
        "2020-01-02 00_00_00",
        "2020-01-03 00_00_00",
        "2020-01-04 00_00_00",
        "2020-01-05 00_00_00",
        "2020-01-06 00_00_00",
        "2020-01-07 00_00_00",
    ];
    for name in old_names {
        fs_err::create_dir_all(format!("{}/{}", root, name)).unwrap();
    }
    fs_err::create_dir_all(format!("{}/not_a_run_folder", root)).unwrap();

    let config = LoggerConfiguration::new(
        String::from(root),
        "txt",
        None,
        Some(5),
        None,
        Identity::resolve(None, None),
    );
    let registry = log::Registry::new();
    log::initialize(&registry, config).unwrap();

    // the three oldest are gone, the four newest survive
    for name in &old_names[..3] {
        assert!(fs_err::metadata(format!("{}/{}", root, name)).is_err());
    }
    for name in &old_names[3..] {
        assert!(fs_err::metadata(format!("{}/{}", root, name)).is_ok());
    }
    // a foreign directory is never touched
    assert!(fs_err::metadata(format!("{}/not_a_run_folder", root)).is_ok());
    // and the new run folder exists
    assert!(log::get_log_file_path(&registry).is_some());
    let _ = fs_err::remove_dir_all(root);
}

#[test]
fn retention_by_age_on_disk() {
    let root = "/tmp/exec_logger_age/test_files";
    let _ = fs_err::remove_dir_all(root);
    let now = chrono::Local::now().naive_local();
    let old = (now - chrono::TimeDelta::days(8))
        .format("%Y-%m-%d %H_%M_%S")
        .to_string();
    let recent = (now - chrono::TimeDelta::days(6))
        .format("%Y-%m-%d %H_%M_%S")
        .to_string();
    fs_err::create_dir_all(format!("{}/{}", root, old)).unwrap();
    fs_err::create_dir_all(format!("{}/{}", root, recent)).unwrap();

    let config = LoggerConfiguration::new(
        String::from(root),
        "txt",
        Some(7),
        None,
        None,
        Identity::resolve(None, None),
    );
    let registry = log::Registry::new();
    log::initialize(&registry, config).unwrap();

    assert!(fs_err::metadata(format!("{}/{}", root, old)).is_err());
    assert!(fs_err::metadata(format!("{}/{}", root, recent)).is_ok());
    let _ = fs_err::remove_dir_all(root);
}
