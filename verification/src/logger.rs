//! Logging: which messages pass the configured levels, in what order they wait
//! for the writer, and how a line reads.
//!
//! The logger only queues. The host takes the queue and writes the lines, with
//! the time of day that it reads itself.

use vstd::prelude::*;
use vstd::string::StringExecFns;

verus! {

/// The levels that the logger lets through.
#[derive(Clone, Copy, Debug, PartialEq, Eq, Structural)]
pub struct LogLevelConfig {
    pub debug: bool,
    pub info: bool,
    pub warn: bool,
    pub error: bool,
}

#[derive(Clone, Copy, Debug, PartialEq, Eq, Structural)]
/// How grave a message is.
pub enum LogLevel {
    Debug,
    Info,
    Warn,
    Error,
}

/// Where the lines go.
pub struct LogOutputConfig {
    pub file: bool,
    pub overwrite_file: bool,
    pub path: String,
    pub console: bool,
}

/// A message on its way to the writer.
pub struct LogMessage {
    pub level: LogLevel,
    pub text: String,
}

/// Why no logger was made.
#[derive(Clone, Copy, Debug, PartialEq, Eq, Structural)]
pub enum LoggerError {
    /// Neither the file nor the console is switched on.
    NoOutput,
    /// The path of the log file names a directory.
    PathIsDirectory,
    /// The directory that is to hold the log file does not exist.
    MissingDirectory,
}

/// How the host opens the log file.
#[derive(Clone, Copy, Debug, PartialEq, Eq, Structural)]
pub enum LogFileMode {
    /// There is no such file yet: create it.
    Create,
    /// The file exists and is to be overwritten: truncate it.
    Overwrite,
    /// The file exists and is kept: append to it.
    Append,
}

/// Whether the configuration lets messages of `level` through.
pub open spec fn lets_through(config: LogLevelConfig, level: LogLevel) -> bool {
    match level {
        LogLevel::Debug => config.debug,
        LogLevel::Info => config.info,
        LogLevel::Warn => config.warn,
        LogLevel::Error => config.error,
    }
}

/// What is wrong with the path of a log file, if anything: it names a directory,
/// or the directory that is to hold the file is missing.
pub open spec fn path_verdict(is_directory: bool, parent_exists: bool) -> Result<(), LoggerError> {
    if is_directory {
        Err(LoggerError::PathIsDirectory)
    } else if !parent_exists {
        Err(LoggerError::MissingDirectory)
    } else {
        Ok(())
    }
}

/// How to open a log file that exists or not, and is to be overwritten or not.
pub open spec fn file_mode(existed: bool, overwrite: bool) -> LogFileMode {
    if !existed {
        LogFileMode::Create
    } else if overwrite {
        LogFileMode::Overwrite
    } else {
        LogFileMode::Append
    }
}

/// The name of a level as it stands in a line.
pub open spec fn level_name(level: LogLevel) -> Seq<char> {
    match level {
        LogLevel::Debug => "DEBUG"@,
        LogLevel::Info => "INFO"@,
        LogLevel::Warn => "WARN"@,
        LogLevel::Error => "ERROR"@,
    }
}

/// The escape sequence that colours the console line of a level: bold blue,
/// green, yellow and red.
pub open spec fn level_color(level: LogLevel) -> Seq<char> {
    match level {
        LogLevel::Debug => "\x1B[1;34m"@,
        LogLevel::Info => "\x1B[1;32m"@,
        LogLevel::Warn => "\x1B[1;33m"@,
        LogLevel::Error => "\x1B[1;31m"@,
    }
}

/// A line of the log file: the level and the time in brackets, then the text.
pub open spec fn file_line(level: LogLevel, time: Seq<char>, text: Seq<char>) -> Seq<char> {
    "["@ + level_name(level) + "]["@ + time + "] "@ + text
}

/// A line on the console: the line of the file in the colour of its level.
pub open spec fn console_line(level: LogLevel, time: Seq<char>, text: Seq<char>) -> Seq<char> {
    level_color(level) + file_line(level, time, text) + "\x1B[0m"@
}

/// The words with which the logger reports how the file at `path` was opened.
pub open spec fn file_mode_report(mode: LogFileMode, path: Seq<char>) -> Seq<char> {
    match mode {
        LogFileMode::Create => "Created log file at "@ + path,
        LogFileMode::Overwrite => "Overwriting log file at "@ + path,
        LogFileMode::Append => "Opened log file at "@ + path,
    }
}

/// The levels that pass, and the messages that wait for the writer.
pub struct Logger {
    pub log_level: LogLevelConfig,
    pub queue: Vec<LogMessage>,
}

impl Logger {
    /// The queued messages, oldest first, each with its level and its text.
    pub open spec fn queued(self) -> Seq<(LogLevel, Seq<char>)> {
        Seq::new(self.queue.len() as nat, |i: int| (self.queue[i].level, self.queue[i].text@))
    }

    /// A logger with an empty queue, if the output goes anywhere at all.
    pub fn new(log_level: LogLevelConfig, output: &LogOutputConfig) -> (made: Result<Logger, LoggerError>)
        ensures
            match made {
                Ok(logger) => {
                    &&& output.file || output.console
                    &&& logger.log_level == log_level
                    &&& logger.queued() == Seq::<(LogLevel, Seq<char>)>::empty()
                },
                Err(error) => error == LoggerError::NoOutput && !output.file && !output.console,
            },
    {
        if !output.file && !output.console {
            return Err(LoggerError::NoOutput);
        }
        let logger = Logger { log_level, queue: Vec::new() };
        assert(logger.queued() =~= Seq::<(LogLevel, Seq<char>)>::empty());
        Ok(logger)
    }

    /// Queues `text` at `level`, whatever the configured levels are.
    fn push(&mut self, level: LogLevel, text: String)
        ensures
            final(self).log_level == old(self).log_level,
            final(self).queued() == old(self).queued().push((level, text@)),
    {
        self.queue.push(LogMessage { level, text });
        assert(self.queued() =~= old(self).queued().push((level, text@)));
    }

    /// Queues `message` at `level` if the configuration lets the level through.
    fn log(&mut self, level: LogLevel, message: &str)
        ensures
            final(self).log_level == old(self).log_level,
            final(self).queued() == (if lets_through(old(self).log_level, level) {
                old(self).queued().push((level, message@))
            } else {
                old(self).queued()
            }),
    {
        let enabled = match level {
            LogLevel::Debug => self.log_level.debug,
            LogLevel::Info => self.log_level.info,
            LogLevel::Warn => self.log_level.warn,
            LogLevel::Error => self.log_level.error,
        };
        if enabled {
            self.push(level, message.to_owned());
        } else {
            assert(self.queued() =~= old(self).queued());
        }
    }

    /// Logs `message` as a debug message, if debug messages are let through.
    pub fn debug(&mut self, message: &str)
        ensures
            final(self).log_level == old(self).log_level,
            final(self).queued() == (if old(self).log_level.debug {
                old(self).queued().push((LogLevel::Debug, message@))
            } else {
                old(self).queued()
            }),
    {
        self.log(LogLevel::Debug, message);
    }

    /// Logs `message` as information, if information is let through.
    pub fn info(&mut self, message: &str)
        ensures
            final(self).log_level == old(self).log_level,
            final(self).queued() == (if old(self).log_level.info {
                old(self).queued().push((LogLevel::Info, message@))
            } else {
                old(self).queued()
            }),
    {
        self.log(LogLevel::Info, message);
    }

    /// Logs `message` as a warning, if warnings are let through.
    pub fn warn(&mut self, message: &str)
        ensures
            final(self).log_level == old(self).log_level,
            final(self).queued() == (if old(self).log_level.warn {
                old(self).queued().push((LogLevel::Warn, message@))
            } else {
                old(self).queued()
            }),
    {
        self.log(LogLevel::Warn, message);
    }

    /// Logs `message` as an error, if errors are let through.
    pub fn error(&mut self, message: &str)
        ensures
            final(self).log_level == old(self).log_level,
            final(self).queued() == (if old(self).log_level.error {
                old(self).queued().push((LogLevel::Error, message@))
            } else {
                old(self).queued()
            }),
    {
        self.log(LogLevel::Error, message);
    }

    /// Says how the host is to open the log file at `path`, and queues the
    /// report of it as information, whatever the configured levels are: first
    /// that the file exists already, if it does, then what is done with it.
    pub fn open_log_file(&mut self, existed: bool, overwrite: bool, path: &str) -> (mode: LogFileMode)
        ensures
            mode == file_mode(existed, overwrite),
            final(self).log_level == old(self).log_level,
            final(self).queued() == (if existed {
                old(self).queued().push((LogLevel::Info, "Log file already exists"@)).push(
                    (LogLevel::Info, file_mode_report(mode, path@)),
                )
            } else {
                old(self).queued().push((LogLevel::Info, file_mode_report(mode, path@)))
            }),
    {
        if existed {
            self.push(LogLevel::Info, "Log file already exists".to_owned());
        }
        let mode = if !existed {
            LogFileMode::Create
        } else if overwrite {
            LogFileMode::Overwrite
        } else {
            LogFileMode::Append
        };
        let lead = match mode {
            LogFileMode::Create => "Created log file at ",
            LogFileMode::Overwrite => "Overwriting log file at ",
            LogFileMode::Append => "Opened log file at ",
        };
        self.push(LogLevel::Info, String::from_str(lead).concat(path));
        mode
    }

    /// Hands the queue over and leaves it empty.
    pub fn take_messages(&mut self) -> (messages: Vec<LogMessage>)
        ensures
            messages@ == old(self).queue@,
            final(self).log_level == old(self).log_level,
            final(self).queued() == Seq::<(LogLevel, Seq<char>)>::empty(),
    {
        let mut messages: Vec<LogMessage> = Vec::new();
        std::mem::swap(&mut messages, &mut self.queue);
        assert(self.queued() =~= Seq::<(LogLevel, Seq<char>)>::empty());
        messages
    }
}

/// The words for an error.
pub open spec fn error_text(error: LoggerError) -> Seq<char> {
    match error {
        LoggerError::NoOutput => "No output specified"@,
        LoggerError::PathIsDirectory => "Log file path is a directory"@,
        LoggerError::MissingDirectory => "Log file directory does not exist"@,
    }
}

impl LoggerError {
    /// The error in words.
    pub fn message(&self) -> (text: String)
        ensures
            text@ == error_text(*self),
    {
        match self {
            LoggerError::NoOutput => "No output specified".to_owned(),
            LoggerError::PathIsDirectory => "Log file path is a directory".to_owned(),
            LoggerError::MissingDirectory => "Log file directory does not exist".to_owned(),
        }
    }
}

/// Checks the path of a log file, from what the host has found out of it: the
/// path must not name a directory, and the directory that is to hold the file
/// must exist. A path that names a directory is refused as such, whatever holds
/// of its parent.
pub fn check_log_path(is_directory: bool, parent_exists: bool) -> (checked: Result<(), LoggerError>)
    ensures
        checked == path_verdict(is_directory, parent_exists),
        checked is Ok <==> !is_directory && parent_exists,
{
    if is_directory {
        Err(LoggerError::PathIsDirectory)
    } else if !parent_exists {
        Err(LoggerError::MissingDirectory)
    } else {
        Ok(())
    }
}

/// The name of `level` as it stands in a line.
pub fn level_tag(level: LogLevel) -> (name: &'static str)
    ensures
        name@ == level_name(level),
{
    match level {
        LogLevel::Debug => "DEBUG",
        LogLevel::Info => "INFO",
        LogLevel::Warn => "WARN",
        LogLevel::Error => "ERROR",
    }
}

/// The line of `message` for the log file, written at `time`.
pub fn format_file_line(message: &LogMessage, time: &str) -> (line: String)
    ensures
        line@ == file_line(message.level, time@, message.text@),
{
    String::from_str("[").concat(level_tag(message.level)).concat("][").concat(time).concat(
        "] ",
    ).concat(message.text.as_str())
}

/// The line of `message` for the console, written at `time`.
pub fn format_console_line(message: &LogMessage, time: &str) -> (line: String)
    ensures
        line@ == console_line(message.level, time@, message.text@),
{
    let color = match message.level {
        LogLevel::Debug => "\x1B[1;34m",
        LogLevel::Info => "\x1B[1;32m",
        LogLevel::Warn => "\x1B[1;33m",
        LogLevel::Error => "\x1B[1;31m",
    };
    let line = format_file_line(message, time);
    let colored = String::from_str(color).concat(line.as_str()).concat("\x1B[0m");
    assert(colored@ =~= console_line(message.level, time@, message.text@));
    colored
}

} // verus!
