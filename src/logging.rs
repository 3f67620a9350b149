use vstd::prelude::*;

verus! {

/// Verbosity of the log sink.
#[derive(Debug, Clone, Copy, PartialEq, Eq, Structural)]
pub enum LogLevel {
    Error,
    Warn,
    Info,
    Debug,
}

impl LogLevel {
    /// The word that tags a message of this level.
    pub fn tag(&self) -> (r: &'static str)
        ensures
            r@ == match *self {
                LogLevel::Error => "error"@,
                LogLevel::Warn => "warning"@,
                LogLevel::Info => "info"@,
                LogLevel::Debug => "debug"@,
            },
    {
        match self {
            LogLevel::Error => "error",
            LogLevel::Warn => "warning",
            LogLevel::Info => "info",
            LogLevel::Debug => "debug",
        }
    }
}

/// The level in effect: the one asked for, else `Info` for the daemon and
/// `Warn` otherwise.
pub fn effective_level(requested: Option<LogLevel>, is_daemon: bool) -> (r: LogLevel)
    ensures
        requested matches Some(l) ==> r == l,
        requested is None ==> r == (if is_daemon {
            LogLevel::Info
        } else {
            LogLevel::Warn
        }),
{
    match requested {
        Some(l) => l,
        None => if is_daemon {
            LogLevel::Info
        } else {
            LogLevel::Warn
        },
    }
}

} // verus!
