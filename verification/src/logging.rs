//! Log levels, the mapping from a verbosity count to a level filter, and the
//! rules by which the logger keeps or drops a record and picks its stream.
use vstd::prelude::*;
use vstd::string::*;

verus! {

/// Severity of a log record. `Error` is the most severe.
#[derive(Clone, Copy, Debug, PartialEq, Eq, Structural)]
pub enum Level {
    Error,
    Warn,
    Info,
    Debug,
    Trace,
}

/// The most verbose level that a logger lets through, or `Off` for none.
#[derive(Clone, Copy, Debug, PartialEq, Eq, Structural)]
pub enum LevelFilter {
    Off,
    Error,
    Warn,
    Info,
    Debug,
    Trace,
}

/// Where a record that is kept gets written.
#[derive(Clone, Copy, Debug, PartialEq, Eq, Structural)]
pub enum Stream {
    Stdout,
    Stderr,
}

impl Level {
    /// Position of the level in the order of verbosity, from 1 for `Error`
    /// to 5 for `Trace`.
    pub open spec fn rank(self) -> nat {
        match self {
            Level::Error => 1,
            Level::Warn => 2,
            Level::Info => 3,
            Level::Debug => 4,
            Level::Trace => 5,
        }
    }

    /// The stream of a record of this level: errors go to the error stream,
    /// everything else to the standard output.
    pub open spec fn stream(self) -> Stream {
        if self == Level::Error {
            Stream::Stderr
        } else {
            Stream::Stdout
        }
    }

    /// The name of the level in capitals, as it stands at the head of a line.
    pub open spec fn spec_name(self) -> Seq<char> {
        match self {
            Level::Error => "ERROR"@,
            Level::Warn => "WARN"@,
            Level::Info => "INFO"@,
            Level::Debug => "DEBUG"@,
            Level::Trace => "TRACE"@,
        }
    }

    fn rank_value(self) -> (r: u8)
        ensures
            r == self.rank(),
    {
        match self {
            Level::Error => 1,
            Level::Warn => 2,
            Level::Info => 3,
            Level::Debug => 4,
            Level::Trace => 5,
        }
    }

    /// Returns the name of the level in capitals.
    pub fn name(self) -> (r: &'static str)
        ensures
            r@ == self.spec_name(),
    {
        match self {
            Level::Error => "ERROR",
            Level::Warn => "WARN",
            Level::Info => "INFO",
            Level::Debug => "DEBUG",
            Level::Trace => "TRACE",
        }
    }
}

impl LevelFilter {
    /// Position of the filter in the order of verbosity: 0 for `Off`, then
    /// the rank of the level of the same name.
    pub open spec fn rank(self) -> nat {
        match self {
            LevelFilter::Off => 0,
            LevelFilter::Error => 1,
            LevelFilter::Warn => 2,
            LevelFilter::Info => 3,
            LevelFilter::Debug => 4,
            LevelFilter::Trace => 5,
        }
    }

    /// The level of the same name, and `None` for `Off`.
    pub open spec fn spec_to_level(self) -> Option<Level> {
        match self {
            LevelFilter::Off => None,
            LevelFilter::Error => Some(Level::Error),
            LevelFilter::Warn => Some(Level::Warn),
            LevelFilter::Info => Some(Level::Info),
            LevelFilter::Debug => Some(Level::Debug),
            LevelFilter::Trace => Some(Level::Trace),
        }
    }

    /// Whether a record of `level` passes the filter.
    pub open spec fn permits(self, level: Level) -> bool {
        level.rank() <= self.rank()
    }

    /// The filter chosen by a count of verbosity flags: errors only for
    /// none, one level more for each flag, everything from four flags on.
    pub open spec fn spec_from_verbosity(count: u8) -> LevelFilter {
        if count == 0 {
            LevelFilter::Error
        } else if count == 1 {
            LevelFilter::Warn
        } else if count == 2 {
            LevelFilter::Info
        } else if count == 3 {
            LevelFilter::Debug
        } else {
            LevelFilter::Trace
        }
    }

    /// Returns the level of the same name, and `None` for `Off`.
    #[verifier::when_used_as_spec(spec_to_level)]
    pub fn to_level(self) -> (r: Option<Level>)
        ensures
            r == self.spec_to_level(),
    {
        match self {
            LevelFilter::Off => None,
            LevelFilter::Error => Some(Level::Error),
            LevelFilter::Warn => Some(Level::Warn),
            LevelFilter::Info => Some(Level::Info),
            LevelFilter::Debug => Some(Level::Debug),
            LevelFilter::Trace => Some(Level::Trace),
        }
    }

    /// Returns the filter for `count` verbosity flags.
    pub fn from_verbosity(count: u8) -> (r: LevelFilter)
        ensures
            r == Self::spec_from_verbosity(count),
    {
        match count {
            0 => LevelFilter::Error,
            1 => LevelFilter::Warn,
            2 => LevelFilter::Info,
            3 => LevelFilter::Debug,
            _ => LevelFilter::Trace,
        }
    }
}

/// A line of the log: the stream it is written to and its text.
#[derive(Debug)]
pub struct LogLine {
    pub stream: Stream,
    pub text: String,
}

/// The text of the line for a record: the name of the level, a colon and a
/// space, and the message.
pub open spec fn line_text(level: Level, message: Seq<char>) -> Seq<char> {
    level.spec_name() + ": "@ + message
}

/// A logger that filters records by level and routes what it keeps.
///
/// The maximum level is fixed when the logger is made; the logger holds no
/// other state.
#[derive(Clone, Copy, Debug)]
pub struct Logger {
    max_level: LevelFilter,
}

impl Logger {
    /// The filter that the logger was made with.
    pub closed spec fn max_level(&self) -> LevelFilter {
        self.max_level
    }

    /// Makes a logger that lets through the records up to `log_level`.
    pub fn init_with_level_filter(log_level: LevelFilter) -> (r: Logger)
        ensures
            r.max_level() == log_level,
    {
        Logger { max_level: log_level }
    }

    /// Returns the filter that the logger was made with.
    pub fn level_filter(&self) -> (r: LevelFilter)
        ensures
            r == self.max_level(),
    {
        self.max_level
    }

    /// Says whether a record of `level` would be written.
    pub fn enabled(&self, level: Level) -> (r: bool)
        ensures
            r == self.max_level().permits(level),
    {
        match self.max_level.to_level() {
            Some(max) => level.rank_value() <= max.rank_value(),
            None => false,
        }
    }

    /// Decides what becomes of a record: the line to write and its stream,
    /// or `None` where the filter drops the record. Errors go to the error
    /// stream, everything else to the standard output.
    pub fn log(&self, level: Level, message: &str) -> (r: Option<LogLine>)
        ensures
            r.is_some() <==> self.max_level().permits(level),
            r matches Some(line) ==> line.stream == level.stream() && line.text@ == line_text(
                level,
                message@,
            ),
    {
        if self.enabled(level) {
            let stream = match level {
                Level::Error => Stream::Stderr,
                _ => Stream::Stdout,
            };
            let mut text = String::from_str(level.name());
            text.append(": ");
            text.append(message);
            Some(LogLine { stream, text })
        } else {
            None
        }
    }
}

} // verus!
