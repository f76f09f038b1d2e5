use vstd::prelude::*;

verus! {

/// How serious a log message is.
#[derive(Debug, PartialEq, Clone, Copy)]
pub enum Level {
    Debug,
    Info,
    Warn,
    Error,
    Fatal,
}

/// A logger that keeps the level it was made with.
pub struct CommonLogger {
    log_level: Level,
}

impl CommonLogger {
    /// The level the logger was made with.
    pub closed spec fn spec_log_level(&self) -> Level {
        self.log_level
    }

    pub fn new(level: Level) -> (logger: Self)
        ensures
            logger.spec_log_level() == level,
    {
        CommonLogger { log_level: level }
    }

    /// The level the logger was made with.
    pub fn log_level(&self) -> (level: Level)
        ensures
            level == self.spec_log_level(),
    {
        self.log_level
    }
}

} // verus!
