use cobalt::logger::{
    check_log_path, format_console_line, format_file_line, level_tag, LogFileMode, LogLevel, LogLevelConfig,
    LogMessage, LogOutputConfig, Logger, LoggerError,
};

fn all_levels() -> LogLevelConfig {
    LogLevelConfig { debug: true, info: true, warn: true, error: true }
}

fn output(file: bool, console: bool) -> LogOutputConfig {
    LogOutputConfig { file, overwrite_file: true, path: "./game.log".to_string(), console }
}

fn queued(logger: &Logger) -> Vec<(LogLevel, &str)> {
    logger.queue.iter().map(|m| (m.level, m.text.as_str())).collect()
}

#[test]
fn test_logger() {
    let mut logger = match Logger::new(all_levels(), &output(true, true)) {
        Ok(l) => l,
        Err(e) => panic!("Failed to create logger: {:?}", e),
    };
    logger.debug("debug");
    logger.info("info");
    logger.warn("warn");
    logger.error("error");
    assert_eq!(
        queued(&logger),
        vec![
            (LogLevel::Debug, "debug"),
            (LogLevel::Info, "info"),
            (LogLevel::Warn, "warn"),
            (LogLevel::Error, "error"),
        ]
    );
}

#[test]
fn logger_needs_an_output() {
    assert_eq!(Logger::new(all_levels(), &output(false, false)).err(), Some(LoggerError::NoOutput));
    assert!(Logger::new(all_levels(), &output(true, false)).is_ok());
    assert!(Logger::new(all_levels(), &output(false, true)).is_ok());
}

#[test]
fn switched_off_levels_are_not_queued() {
    let levels = LogLevelConfig { debug: false, info: true, warn: false, error: true };
    let mut logger = Logger::new(levels, &output(false, true)).unwrap();
    logger.debug("d");
    logger.info("i");
    logger.warn("w");
    logger.error("e");
    assert_eq!(queued(&logger), vec![(LogLevel::Info, "i"), (LogLevel::Error, "e")]);

    let levels = LogLevelConfig { debug: true, info: false, warn: true, error: false };
    let mut logger = Logger::new(levels, &output(false, true)).unwrap();
    logger.debug("d");
    logger.info("i");
    logger.warn("w");
    logger.error("e");
    assert_eq!(queued(&logger), vec![(LogLevel::Debug, "d"), (LogLevel::Warn, "w")]);
}

#[test]
fn taking_the_messages_empties_the_queue() {
    let mut logger = Logger::new(all_levels(), &output(false, true)).unwrap();
    logger.info("one");
    logger.warn("two");
    let taken = logger.take_messages();
    assert_eq!(taken.len(), 2);
    assert_eq!(taken[0].text, "one");
    assert_eq!(taken[1].level, LogLevel::Warn);
    assert!(logger.queue.is_empty());
    logger.error("three");
    assert_eq!(queued(&logger), vec![(LogLevel::Error, "three")]);
}

#[test]
fn log_file_is_created_overwritten_or_appended_to() {
    let silent = LogLevelConfig { debug: false, info: false, warn: false, error: false };
    let mut logger = Logger::new(silent, &output(true, false)).unwrap();
    assert_eq!(logger.open_log_file(false, false, "a.log"), LogFileMode::Create);
    assert_eq!(logger.open_log_file(false, true, "b.log"), LogFileMode::Create);
    assert_eq!(logger.open_log_file(true, true, "c.log"), LogFileMode::Overwrite);
    assert_eq!(logger.open_log_file(true, false, "d.log"), LogFileMode::Append);
    assert_eq!(
        queued(&logger),
        vec![
            (LogLevel::Info, "Created log file at a.log"),
            (LogLevel::Info, "Created log file at b.log"),
            (LogLevel::Info, "Log file already exists"),
            (LogLevel::Info, "Overwriting log file at c.log"),
            (LogLevel::Info, "Log file already exists"),
            (LogLevel::Info, "Opened log file at d.log"),
        ]
    );
}

#[test]
fn lines_carry_level_time_and_text() {
    let message = LogMessage { level: LogLevel::Warn, text: "low memory".to_string() };
    assert_eq!(format_file_line(&message, "12:30:05"), "[WARN][12:30:05] low memory");
    assert_eq!(format_console_line(&message, "12:30:05"), "\x1B[1;33m[WARN][12:30:05] low memory\x1B[0m");

    let line = |level, text: &str| format_console_line(&LogMessage { level, text: text.to_string() }, "00:00:00");
    assert_eq!(line(LogLevel::Debug, "d"), "\x1B[1;34m[DEBUG][00:00:00] d\x1B[0m");
    assert_eq!(line(LogLevel::Info, "i"), "\x1B[1;32m[INFO][00:00:00] i\x1B[0m");
    assert_eq!(line(LogLevel::Error, ""), "\x1B[1;31m[ERROR][00:00:00] \x1B[0m");
    assert_eq!(level_tag(LogLevel::Debug), "DEBUG");
    assert_eq!(level_tag(LogLevel::Error), "ERROR");
}

#[test]
fn log_path_must_be_a_file_in_a_directory_that_exists() {
    assert_eq!(check_log_path(false, true), Ok(()));
    assert_eq!(check_log_path(true, true), Err(LoggerError::PathIsDirectory));
    assert_eq!(check_log_path(true, false), Err(LoggerError::PathIsDirectory));
    assert_eq!(check_log_path(false, false), Err(LoggerError::MissingDirectory));
}

#[test]
fn errors_read_as_words() {
    assert_eq!(LoggerError::NoOutput.message(), "No output specified");
    assert_eq!(LoggerError::PathIsDirectory.message(), "Log file path is a directory");
    assert_eq!(LoggerError::MissingDirectory.message(), "Log file directory does not exist");
}
