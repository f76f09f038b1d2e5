use vstd::prelude::*;

verus! {

/// How serious a log message is.
#[derive(Debug, PartialEq, Clone, Copy)]
pub enum Level {
    Debug,
    Info,
    Warn,
    Error,
    Fatal,
}

/// Something that writes log messages.
pub trait Logger {
    /// Writes `message`.
    fn log(&self, message: &str);
}

/// A logger that writes to a stream, and keeps a level.
pub struct StreamLogger {
    log_level: Level,
}

impl StreamLogger {
    /// The level the logger keeps.
    pub closed spec fn spec_log_level(&self) -> Level {
        self.log_level
    }

    pub fn new(level: Level) -> (logger: Self)
        ensures
            logger.spec_log_level() == level,
    {
        StreamLogger { log_level: level }
    }

    /// Replaces the level the logger keeps.
    pub fn set_log_level(&mut self, level: Level)
        ensures
            final(self).spec_log_level() == level,
    {
        self.log_level = level;
    }

    /// The level the logger keeps.
    pub fn log_level(&self) -> (level: Level)
        ensures
            level == self.spec_log_level(),
    {
        self.log_level
    }
}

} // verus!
