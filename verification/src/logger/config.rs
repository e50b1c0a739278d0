use vstd::prelude::*;

verus! {

/// How much the logger writes.
#[derive(Debug, Clone, Copy, PartialEq, Eq)]
pub enum DebugLevel {
    INFO,
    DEBUG,
    WARNING,
    ERROR,
}

impl DebugLevel {
    /// The number of the level.
    pub fn as_num(&self) -> (num: usize)
        ensures
            num == match *self {
                DebugLevel::INFO => 0usize,
                DebugLevel::DEBUG => 1usize,
                DebugLevel::WARNING => 2usize,
                DebugLevel::ERROR => 4usize,
            },
    {
        match self {
            DebugLevel::INFO => 0,
            DebugLevel::DEBUG => 1,
            DebugLevel::WARNING => 2,
            DebugLevel::ERROR => 4,
        }
    }
}

/// The logger's settings.
pub struct Config {
    pub debug_level: DebugLevel,
}

/// The logger's settings: everything from `INFO` up is written.
pub fn get_config() -> (config: Config)
    ensures
        config.debug_level == DebugLevel::INFO,
{
    Config { debug_level: DebugLevel::INFO }
}

} // verus!
