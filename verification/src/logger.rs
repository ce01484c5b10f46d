//! The configuration of a logger that has a destination of its own for each
//! level.
//!
//! The library decides which records are written and where they go. The
//! writing is the caller's: a destination names the standard streams, or
//! holds writers of the caller's own type `W`.

use vstd::prelude::*;

verus! {

/// The level of a log record.
#[derive(Debug, Clone, Copy, PartialEq, Eq, Structural)]
pub enum Level {
    /// Serious errors.
    Error,
    /// Hazardous situations.
    Warn,
    /// Useful information.
    Info,
    /// Lower priority information.
    Debug,
    /// Very low priority, often very verbose, information.
    Trace,
}

/// The most verbose level that a logger lets through.
#[derive(Debug, Clone, Copy, PartialEq, Eq, Structural)]
pub enum LevelFilter {
    /// No record is let through.
    Off,
    /// Records of the level `Error`.
    Error,
    /// Records up to the level `Warn`.
    Warn,
    /// Records up to the level `Info`.
    Info,
    /// Records up to the level `Debug`.
    Debug,
    /// All records.
    Trace,
}

impl Level {
    /// The place of the level in the order of levels, from 1 for `Error` to
    /// 5 for `Trace`.
    pub open spec fn place_spec(self) -> int {
        match self {
            Level::Error => 1,
            Level::Warn => 2,
            Level::Info => 3,
            Level::Debug => 4,
            Level::Trace => 5,
        }
    }

    /// The place of the level in the order of levels, from 1 for `Error` to
    /// 5 for `Trace`.
    pub fn place(self) -> (place: u8)
        ensures
            place == self.place_spec(),
    {
        match self {
            Level::Error => 1,
            Level::Warn => 2,
            Level::Info => 3,
            Level::Debug => 4,
            Level::Trace => 5,
        }
    }

    /// The level at the place `place`; `Error` for a place below 1, `Trace`
    /// for one above 5.
    pub open spec fn at_spec(place: int) -> Level {
        if place <= 1 {
            Level::Error
        } else if place == 2 {
            Level::Warn
        } else if place == 3 {
            Level::Info
        } else if place == 4 {
            Level::Debug
        } else {
            Level::Trace
        }
    }
}

impl LevelFilter {
    /// The place of the most verbose level that the filter lets through; 0
    /// if it lets nothing through.
    pub open spec fn place_spec(self) -> int {
        match self {
            LevelFilter::Off => 0,
            LevelFilter::Error => 1,
            LevelFilter::Warn => 2,
            LevelFilter::Info => 3,
            LevelFilter::Debug => 4,
            LevelFilter::Trace => 5,
        }
    }

    /// The place of the most verbose level that the filter lets through; 0
    /// if it lets nothing through.
    pub fn place(self) -> (place: u8)
        ensures
            place == self.place_spec(),
    {
        match self {
            LevelFilter::Off => 0,
            LevelFilter::Error => 1,
            LevelFilter::Warn => 2,
            LevelFilter::Info => 3,
            LevelFilter::Debug => 4,
            LevelFilter::Trace => 5,
        }
    }
}

/// The level up to which records are let through if nothing else is asked
/// for.
pub const DEFAULT_LOG_LEVEL: Level = Level::Warn;

/// The filter that lets through the records up to `level`.
pub fn level_into_level_filter(level: Level) -> (filter: LevelFilter)
    ensures
        filter.place_spec() == level.place_spec(),
{
    match level {
        Level::Error => LevelFilter::Error,
        Level::Warn => LevelFilter::Warn,
        Level::Info => LevelFilter::Info,
        Level::Debug => LevelFilter::Debug,
        Level::Trace => LevelFilter::Trace,
    }
}

/// Something to write log records to.
#[derive(Debug)]
pub enum LogWriter<W> {
    /// The standard output.
    Stdout,
    /// The standard error.
    Stderr,
    /// A writer of the caller.
    Custom(W),
}

/// Where the records of one level go: to one writer, or to several.
#[derive(Debug)]
pub enum LogDestination<W> {
    /// One writer.
    Single(LogWriter<W>),
    /// Several writers, each of which gets every record.
    Multi(Vec<LogWriter<W>>),
}

impl<W> LogDestination<W> {
    /// The writers of the destination, in the order in which they are
    /// written to.
    pub open spec fn writers(self) -> Seq<LogWriter<W>> {
        match self {
            LogDestination::Single(writer) => seq![writer],
            LogDestination::Multi(writers) => writers@,
        }
    }

    /// The destination with `writer` as a further writer.
    pub fn push(self, writer: LogWriter<W>) -> (pushed: Self)
        ensures
            pushed is Multi,
            pushed.writers() == self.writers().push(writer),
    {
        match self {
            LogDestination::Single(inner) => {
                let mut writers: Vec<LogWriter<W>> = Vec::new();
                writers.push(inner);
                writers.push(writer);
                assert(writers@ =~= seq![inner].push(writer));
                LogDestination::Multi(writers)
            },
            LogDestination::Multi(mut inner) => {
                inner.push(writer);
                LogDestination::Multi(inner)
            },
        }
    }

    /// The destination that has `writer` as its one writer.
    pub fn from(writer: LogWriter<W>) -> (made: Self)
        ensures
            made == LogDestination::Single(writer),
    {
        LogDestination::Single(writer)
    }
}

/// The writer that the records of `level` go to by default: the standard
/// error for errors and warnings, the standard output for all else.
pub open spec fn default_writer<W>(level: Level) -> LogWriter<W> {
    if level is Error || level is Warn {
        LogWriter::Stderr
    } else {
        LogWriter::Stdout
    }
}

/// The destination that the records of `level` go to by default.
pub fn default_log_dest_for_level<W>(level: Level) -> (destination: LogDestination<W>)
    ensures
        destination == LogDestination::Single(default_writer::<W>(level)),
{
    match level {
        Level::Error => LogDestination::from(LogWriter::Stderr),
        Level::Warn => LogDestination::from(LogWriter::Stderr),
        Level::Info => LogDestination::from(LogWriter::Stdout),
        Level::Debug => LogDestination::from(LogWriter::Stdout),
        Level::Trace => LogDestination::from(LogWriter::Stdout),
    }
}

/// A logger with a destination for each level.
#[derive(Debug)]
pub struct Logger<W> {
    /// The most verbose level that is let through.
    pub max_level: LevelFilter,
    /// Where errors go.
    pub error: LogDestination<W>,
    /// Where warnings go.
    pub warn: LogDestination<W>,
    /// Where information goes.
    pub info: LogDestination<W>,
    /// Where debug records go.
    pub debug: LogDestination<W>,
    /// Where trace records go.
    pub trace: LogDestination<W>,
}

impl<W> Logger<W> {
    /// Where the records of `level` go.
    pub open spec fn destination(self, level: Level) -> LogDestination<W> {
        match level {
            Level::Error => self.error,
            Level::Warn => self.warn,
            Level::Info => self.info,
            Level::Debug => self.debug,
            Level::Trace => self.trace,
        }
    }

    /// The logger with `destination` as the destination of `level`.
    pub open spec fn with_destination(self, level: Level, destination: LogDestination<W>) -> Self {
        match level {
            Level::Error => Logger { error: destination, ..self },
            Level::Warn => Logger { warn: destination, ..self },
            Level::Info => Logger { info: destination, ..self },
            Level::Debug => Logger { debug: destination, ..self },
            Level::Trace => Logger { trace: destination, ..self },
        }
    }

    /// Records of `level` are let through.
    pub open spec fn enabled_spec(self, level: Level) -> bool {
        level.place_spec() <= self.max_level.place_spec()
    }

    /// Where the records of `level` go.
    pub fn as_logdestination_from_level(&self, level: Level) -> (destination: &LogDestination<W>)
        ensures
            *destination == self.destination(level),
    {
        match level {
            Level::Error => &self.error,
            Level::Warn => &self.warn,
            Level::Info => &self.info,
            Level::Debug => &self.debug,
            Level::Trace => &self.trace,
        }
    }

    /// The most verbose level that is let through.
    pub fn max_level_filter(&self) -> (filter: LevelFilter)
        ensures
            filter == self.max_level,
    {
        self.max_level
    }

    /// Are records of `level` let through?
    pub fn enabled(&self, level: Level) -> (enabled: bool)
        ensures
            enabled == self.enabled_spec(level),
    {
        level.place() <= self.max_level.place()
    }

    /// Where a record of `level` is to be written: to every writer of the
    /// destination of the level, or nowhere if the level is not let through.
    pub fn log(&self, level: Level) -> (destination: Option<&LogDestination<W>>)
        ensures
            match destination {
                Some(d) => self.enabled_spec(level) && *d == self.destination(level),
                None => !self.enabled_spec(level),
            },
    {
        if !self.enabled(level) {
            return None;
        }
        Some(self.as_logdestination_from_level(level))
    }
}

/// A builder for a [`Logger`].
#[derive(Debug)]
pub struct LoggerBuilder<W> {
    /// The logger as it has been set up so far.
    pub logger: Logger<W>,
}

impl<W> LoggerBuilder<W> {
    /// Ends the set-up and hands out the logger.
    pub fn init(self) -> (logger: Logger<W>)
        ensures
            logger == self.logger,
    {
        self.logger
    }

    /// Sets the destination of errors.
    fn set_error_dest(self, dest: LogDestination<W>) -> (set: Self)
        ensures
            set.logger == self.logger.with_destination(Level::Error, dest),
    {
        let mut set = self;
        set.logger.error = dest;
        set
    }

    /// Sets the destination of warnings.
    fn set_warn_dest(self, dest: LogDestination<W>) -> (set: Self)
        ensures
            set.logger == self.logger.with_destination(Level::Warn, dest),
    {
        let mut set = self;
        set.logger.warn = dest;
        set
    }

    /// Sets the destination of information.
    fn set_info_dest(self, dest: LogDestination<W>) -> (set: Self)
        ensures
            set.logger == self.logger.with_destination(Level::Info, dest),
    {
        let mut set = self;
        set.logger.info = dest;
        set
    }

    /// Sets the destination of debug records.
    fn set_debug_dest(self, dest: LogDestination<W>) -> (set: Self)
        ensures
            set.logger == self.logger.with_destination(Level::Debug, dest),
    {
        let mut set = self;
        set.logger.debug = dest;
        set
    }

    /// Sets the destination of trace records.
    fn set_trace_dest(self, dest: LogDestination<W>) -> (set: Self)
        ensures
            set.logger == self.logger.with_destination(Level::Trace, dest),
    {
        let mut set = self;
        set.logger.trace = dest;
        set
    }

    /// Adds a writer for errors.
    fn append_error_dest(self, dest: LogWriter<W>) -> (set: Self)
        ensures
            set.logger.error is Multi,
            set.logger.error.writers() == self.logger.error.writers().push(dest),
            set.logger == self.logger.with_destination(Level::Error, set.logger.error),
    {
        let LoggerBuilder { logger } = self;
        let Logger { max_level, error, warn, info, debug, trace } = logger;
        LoggerBuilder {
            logger: Logger { max_level, error: error.push(dest), warn, info, debug, trace },
        }
    }

    /// Adds a writer for warnings.
    fn append_warn_dest(self, dest: LogWriter<W>) -> (set: Self)
        ensures
            set.logger.warn is Multi,
            set.logger.warn.writers() == self.logger.warn.writers().push(dest),
            set.logger == self.logger.with_destination(Level::Warn, set.logger.warn),
    {
        let LoggerBuilder { logger } = self;
        let Logger { max_level, error, warn, info, debug, trace } = logger;
        LoggerBuilder {
            logger: Logger { max_level, error, warn: warn.push(dest), info, debug, trace },
        }
    }

    /// Adds a writer for information.
    fn append_info_dest(self, dest: LogWriter<W>) -> (set: Self)
        ensures
            set.logger.info is Multi,
            set.logger.info.writers() == self.logger.info.writers().push(dest),
            set.logger == self.logger.with_destination(Level::Info, set.logger.info),
    {
        let LoggerBuilder { logger } = self;
        let Logger { max_level, error, warn, info, debug, trace } = logger;
        LoggerBuilder {
            logger: Logger { max_level, error, warn, info: info.push(dest), debug, trace },
        }
    }

    /// Adds a writer for debug records.
    fn append_debug_dest(self, dest: LogWriter<W>) -> (set: Self)
        ensures
            set.logger.debug is Multi,
            set.logger.debug.writers() == self.logger.debug.writers().push(dest),
            set.logger == self.logger.with_destination(Level::Debug, set.logger.debug),
    {
        let LoggerBuilder { logger } = self;
        let Logger { max_level, error, warn, info, debug, trace } = logger;
        LoggerBuilder {
            logger: Logger { max_level, error, warn, info, debug: debug.push(dest), trace },
        }
    }

    /// Adds a writer for trace records.
    fn append_trace_dest(self, dest: LogWriter<W>) -> (set: Self)
        ensures
            set.logger.trace is Multi,
            set.logger.trace.writers() == self.logger.trace.writers().push(dest),
            set.logger == self.logger.with_destination(Level::Trace, set.logger.trace),
    {
        let LoggerBuilder { logger } = self;
        let Logger { max_level, error, warn, info, debug, trace } = logger;
        LoggerBuilder {
            logger: Logger { max_level, error, warn, info, debug, trace: trace.push(dest) },
        }
    }

    /// Makes `dest` the one writer of the records of `level`. Nothing else
    /// changes.
    pub fn output(self, level: Level, dest: LogWriter<W>) -> (set: Self)
        ensures
            set.logger == self.logger.with_destination(level, LogDestination::Single(dest)),
    {
        let log_destination = LogDestination::from(dest);
        match level {
            Level::Error => self.set_error_dest(log_destination),
            Level::Warn => self.set_warn_dest(log_destination),
            Level::Info => self.set_info_dest(log_destination),
            Level::Debug => self.set_debug_dest(log_destination),
            Level::Trace => self.set_trace_dest(log_destination),
        }
    }

    /// Makes `dest` a further writer of the records of `level`, after the
    /// writers that they have. Nothing else changes.
    pub fn append_output(self, level: Level, dest: LogWriter<W>) -> (set: Self)
        ensures
            set.logger.destination(level) is Multi,
            set.logger.destination(level).writers() == self.logger.destination(
                level,
            ).writers().push(dest),
            set.logger == self.logger.with_destination(level, set.logger.destination(level)),
    {
        match level {
            Level::Error => self.append_error_dest(dest),
            Level::Warn => self.append_warn_dest(dest),
            Level::Info => self.append_info_dest(dest),
            Level::Debug => self.append_debug_dest(dest),
            Level::Trace => self.append_trace_dest(dest),
        }
    }

    /// Lets the records up to `max_level` through. Nothing else changes.
    pub fn max_level(self, max_level: Level) -> (set: Self)
        ensures
            set.logger.max_level.place_spec() == max_level.place_spec(),
            set.logger == (Logger { max_level: set.logger.max_level, ..self.logger }),
    {
        let mut set = self;
        set.logger.max_level = level_into_level_filter(max_level);
        set
    }

    /// Lets the records through that the number of verbosity flags asks
    /// for: those up to the default level for no flag, and those of one
    /// level more for each flag, up to `Trace`. Nothing else changes.
    pub fn verbosity(self, verbosity: u8) -> (set: Self)
        ensures
            set.logger.max_level.place_spec() == Level::at_spec(
                DEFAULT_LOG_LEVEL.place_spec() + verbosity,
            ).place_spec(),
            set.logger == (Logger { max_level: set.logger.max_level, ..self.logger }),
    {
        // The place of the level that is asked for, counted from the default.
        let offset: u16 = DEFAULT_LOG_LEVEL.place() as u16 + verbosity as u16;
        let adjusted_max_level = if offset <= 1 {
            Level::Error
        } else if offset == 2 {
            Level::Warn
        } else if offset == 3 {
            Level::Info
        } else if offset == 4 {
            Level::Debug
        } else {
            Level::Trace
        };
        let mut set = self;
        set.logger.max_level = level_into_level_filter(adjusted_max_level);
        set
    }
}

impl<W> Default for LoggerBuilder<W> {
    /// The builder of a logger that lets the records up to the default level
    /// through and writes each level to its default destination.
    fn default() -> (builder: Self)
        ensures
            builder.logger.max_level.place_spec() == DEFAULT_LOG_LEVEL.place_spec(),
            forall|level: Level| #[trigger]
                builder.logger.destination(level) == LogDestination::Single(
                    default_writer::<W>(level),
                ),
    {
        let logger = Logger {
            max_level: level_into_level_filter(DEFAULT_LOG_LEVEL),
            error: default_log_dest_for_level(Level::Error),
            warn: default_log_dest_for_level(Level::Warn),
            info: default_log_dest_for_level(Level::Info),
            debug: default_log_dest_for_level(Level::Debug),
            trace: default_log_dest_for_level(Level::Trace),
        };
        LoggerBuilder { logger }
    }
}

} // verus!
