//! Log levels and the prefix that each one prints.
use vstd::prelude::*;

verus! {

/// Severity of a log message, from least to most severe.
#[derive(Debug, Clone, Copy, PartialEq, Eq, Structural, PartialOrd, Ord)]
pub enum LogLevel {
    Trace,
    Debug,
    Info,
    Warn,
    Error,
}

impl LogLevel {
    /// The seven-character prefix printed before a message of this level.
    pub fn prefix(self) -> (r: &'static str)
        ensures
            self == LogLevel::Trace ==> r@ == "[TRACE]"@,
            self == LogLevel::Debug ==> r@ == "[DEBUG]"@,
            self == LogLevel::Info ==> r@ == "[INFO] "@,
            self == LogLevel::Warn ==> r@ == "[WARN] "@,
            self == LogLevel::Error ==> r@ == "[ERROR]"@,
    {
        match self {
            LogLevel::Trace => "[TRACE]",
            LogLevel::Debug => "[DEBUG]",
            LogLevel::Info => "[INFO] ",
            LogLevel::Warn => "[WARN] ",
            LogLevel::Error => "[ERROR]",
        }
    }
}

} // verus!
