use exec_logger::config::{Identity, LoggerConfiguration};
use exec_logger::log;
use exec_logger::log_level::LogLevel;

#[test]
fn test_config() {
    let config = LoggerConfiguration::new(
        String::from("/tmp/exec_logger/test_files"),
        "LOG",
        Some(7),
        Some(5),
        Some(LogLevel::Info),
        Identity::resolve(None, None),
    );
    println!("Config created = {:?}", config);
}

#[test]
fn test_log() {
    let _ = fs_err::remove_dir_all("/tmp/exec_logger/test_files");
    let config = LoggerConfiguration::new(
        String::from("/tmp/exec_logger/test_files"),
        "LOG",
        Some(7),
        Some(5),
        Some(LogLevel::Info),
        Identity::resolve(None, None),
    );
    println!("Config created = {:?}", config);

    let registry = log::Registry::new();

    // Try to send an INFO message before initializing
    log::info(&registry, "Message 1");

    log::initialize(&registry, config).unwrap();

    // Try to send an INFO after initializing
    log::info(&registry, "Message 2");

    // Try to send a ERROR
    log::error(&registry, "Message 3");

    // Try to send a TRACE message
    log::trace(&registry, "Message 4");

    // Get the log file path
    let log_file_path = log::get_log_file_path(&registry).unwrap();
    println!("Log file path = {:?}", log_file_path);

    // Read file path
    let contents = fs_err::read_to_string(log_file_path).unwrap();

    // Check if messages are in the log file
    assert!(
        !contents.contains("Message 1"),
        "Message 1 should not be present"
    );
    assert!(
        contents.contains("Message 2"),
        "Message 2 should be present"
    );
    assert!(
        contents.contains("Message 3"),
        "Message 3 should be present"
    );
    assert!(
        !contents.contains("Message 4"),
        "Message 4 should not be present"
    );
    let _ = fs_err::remove_dir_all("/tmp/exec_logger/test_files");
}

#[test]
fn test_multiple_initialization() {
    let _ = fs_err::remove_dir_all("/tmp/exec_logger/test_files");
    let registry = log::Registry::new();
    for i in 1..6 {
        let mut config = LoggerConfiguration::new(
            format!("/tmp/exec_logger/test_files/{}", i),
            "txt",
            Some(7),
            Some(50),
            Some(LogLevel::Info),
            Identity::resolve(None, None),
        );

        let _ = config.set_message_format("{USER_NAME} | {LEVEL} | {MESSAGE} | {TIMESTAMP}");

        let _ = config.set_timestamp_format("%y-%m-%d");
        log::initialize(&registry, config).unwrap();

        // the freshest initialization owns the registry: its run folder
        // lies under the root this round used
        let path = log::get_log_file_path(&registry).unwrap();
        assert!(path.starts_with(&format!("/tmp/exec_logger/test_files/{}", i)));
    }
    let _ = fs_err::remove_dir_all("/tmp/exec_logger/test_files");
}

#[test]
fn test_custom_level() {
    let _ = fs_err::remove_dir_all("/tmp/exec_logger/test_files");
    let stat = log::create_custom_level("STAT", 25);

    let config = LoggerConfiguration::new(
        String::from("/tmp/exec_logger/test_files"),
        "LOG",
        Some(7),
        Some(5),
        None,
        Identity::resolve(None, None),
    );

    let registry = log::Registry::new();
    log::initialize(&registry, config).unwrap();

    log::custom(&registry, "This is a STAT message", &stat);

    log::info(&registry, "This is an INFO message");

    // no filter is configured, so both messages land in the file
    let path = log::get_log_file_path(&registry).unwrap();
    let contents = fs_err::read_to_string(path).unwrap();
    assert!(contents.contains("This is a STAT message"));
    assert!(contents.contains("This is an INFO message"));
    let _ = fs_err::remove_dir_all("/tmp/exec_logger/test_files");
}

#[test]
fn test_level_severity() {
    let _ = fs_err::remove_dir_all("/tmp/exec_logger/test_files");
    let config = LoggerConfiguration::new(
        String::from("/tmp/exec_logger/test_files"),
        "LOG",
        Some(7),
        Some(5),
        None,
        Identity::resolve(None, None),
    );

    let custom1 = log::create_custom_level("CUSTOM1", 45);

    let registry = log::Registry::new();
    log::initialize(&registry, config).unwrap();

    log::custom(&registry, "This is a custom message", &custom1);

    log::info(&registry, "This is an INFO message");

    log::debug(&registry, "This is a debug message");

    log::info(&registry, "Logging all default severity levels");

    log::trace(&registry, &format!("TRACE = {}", i32::from(&LogLevel::Trace)));
    log::debug(&registry, &format!("DEBUG = {}", i32::from(&LogLevel::Debug)));
    log::info(&registry, &format!("INFO = {}", i32::from(&LogLevel::Info)));
    log::warn(&registry, &format!("WARN = {}", i32::from(&LogLevel::Warn)));
    log::error(&registry, &format!("ERROR = {}", i32::from(&LogLevel::Error)));
    log::custom(
        &registry,
        &format!("CUSTOM1 = {}", i32::from(&custom1)),
        &custom1,
    );

    assert_eq!(i32::from(&LogLevel::Trace), 10);
    assert_eq!(i32::from(&LogLevel::Debug), 20);
    assert_eq!(i32::from(&LogLevel::Info), 30);
    assert_eq!(i32::from(&LogLevel::Warn), 40);
    assert_eq!(i32::from(&LogLevel::Error), 50);
    assert_eq!(i32::from(&custom1), 45);
    let _ = fs_err::remove_dir_all("/tmp/exec_logger/test_files");
}
