//! The kernel's logger: which sinks a record goes to, and the line that is
//! written there.

use vstd::prelude::*;
use vstd::string::StringExecFns;

verus! {

/// How grave a log record is.
#[derive(Clone, Copy, Debug, PartialEq, Eq, Structural)]
pub enum Level {
    Error,
    Warn,
    Info,
    Debug,
    Trace,
}

/// The gravest level that is not logged any more.
#[derive(Clone, Copy, Debug, PartialEq, Eq, Structural)]
pub enum LevelFilter {
    Off,
    Error,
    Warn,
    Info,
    Debug,
    Trace,
}

/// The name of `level`, filled with blanks to five characters.
pub open spec fn level_name(level: Level) -> Seq<char> {
    match level {
        Level::Error => "ERROR"@,
        Level::Warn => "WARN "@,
        Level::Info => "INFO "@,
        Level::Debug => "DEBUG"@,
        Level::Trace => "TRACE"@,
    }
}

/// The line that is written for a record: the name of its level in five
/// characters, a colon and a blank, the message, and a line feed.
pub open spec fn log_line(level: Level, message: Seq<char>) -> Seq<char> {
    level_name(level) + ": "@ + message + "\n"@
}

/// A logger that writes to the framebuffer, to the serial line, to both or
/// to neither.
#[derive(Debug)]
pub struct LockedLogger {
    framebuffer: bool,
    serial: bool,
}

/// What the logger writes for one record: the line for each sink it writes
/// to.
#[derive(Debug)]
pub struct LogOutput {
    pub framebuffer: Option<String>,
    pub serial: Option<String>,
}

impl LockedLogger {
    /// Whether records go to the framebuffer.
    pub closed spec fn to_framebuffer(&self) -> bool {
        self.framebuffer
    }

    /// Whether records go to the serial line.
    pub closed spec fn to_serial(&self) -> bool {
        self.serial
    }

    /// A logger that writes to the framebuffer if
    /// `frame_buffer_logger_status` is set, and to the serial line if
    /// `serial_logger_status` is set.
    pub fn new(frame_buffer_logger_status: bool, serial_logger_status: bool) -> (logger: Self)
        ensures
            logger.to_framebuffer() == frame_buffer_logger_status,
            logger.to_serial() == serial_logger_status,
    {
        let framebuffer: bool = frame_buffer_logger_status;
        let serial: bool = serial_logger_status;
        LockedLogger { framebuffer, serial }
    }

    /// Whether a record of the level `level` is logged. Every record is.
    pub fn enabled(&self, level: Level) -> (enabled: bool)
        ensures
            enabled,
    {
        true
    }

    /// The line of a record of the level `level` with the message
    /// `message`.
    pub fn format(level: Level, message: &str) -> (line: String)
        ensures
            line@ == log_line(level, message@),
    {
        let name: &str = match level {
            Level::Error => "ERROR",
            Level::Warn => "WARN ",
            Level::Info => "INFO ",
            Level::Debug => "DEBUG",
            Level::Trace => "TRACE",
        };
        let mut line: String = String::from_str(name);
        line.append(": ");
        line.append(message);
        line.append("\n");
        line
    }

    /// What is written for a record of the level `level` with the message
    /// `message`: its line, for each sink the logger writes to.
    pub fn log(&self, level: Level, message: &str) -> (output: LogOutput)
        ensures
            output.framebuffer is Some == self.to_framebuffer(),
            output.serial is Some == self.to_serial(),
            output.framebuffer is Some ==> output.framebuffer->0@ == log_line(level, message@),
            output.serial is Some ==> output.serial->0@ == log_line(level, message@),
    {
        let framebuffer: Option<String> = if self.framebuffer {
            Some(LockedLogger::format(level, message))
        } else {
            None
        };
        let serial: Option<String> = if self.serial {
            Some(LockedLogger::format(level, message))
        } else {
            None
        };
        LogOutput { framebuffer, serial }
    }

    /// Nothing is buffered, so there is nothing to flush.
    pub fn flush(&self) {
    }
}

/// Makes the kernel's logger: it writes to the framebuffer and to the serial
/// line, and it is to be installed with every level let through.
pub fn init_logger() -> (result: (LockedLogger, LevelFilter))
    ensures
        result.0.to_framebuffer(),
        result.0.to_serial(),
        result.1 == LevelFilter::Trace,
{
    let logger = LockedLogger::new(true, true);
    (logger, LevelFilter::Trace)
}

} // verus!
