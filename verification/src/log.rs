//! Logging capability and diagnostic-message classification.
//!
//! The logger is an explicitly passed capability holding the maximum level
//! it lets through. The classification functions map the driver's
//! diagnostic-message severity and category words to the logger's levels and
//! to named categories; the callback that the driver actually invokes lives
//! outside the library and uses them to route each message.

use vstd::prelude::*;

verus! {

/// Severity bit of a verbose diagnostic message.
pub const SEVERITY_VERBOSE: u32 = 0x1;
/// Severity bit of an informational diagnostic message.
pub const SEVERITY_INFO: u32 = 0x10;
/// Severity bit of a warning diagnostic message.
pub const SEVERITY_WARNING: u32 = 0x100;
/// Severity bit of an error diagnostic message.
pub const SEVERITY_ERROR: u32 = 0x1000;

/// Category bit of a general diagnostic message.
pub const MESSAGE_TYPE_GENERAL: u32 = 0x1;
/// Category bit of a validation diagnostic message.
pub const MESSAGE_TYPE_VALIDATION: u32 = 0x2;
/// Category bit of a performance diagnostic message.
pub const MESSAGE_TYPE_PERFORMANCE: u32 = 0x4;
/// Category bit of a device-address-binding diagnostic message.
pub const MESSAGE_TYPE_DEVICE_ADDRESS_BINDING: u32 = 0x8;

/// A log statement's level, most severe first.
#[derive(Clone, Copy, Debug, PartialEq, Eq, Structural)]
pub enum LogLevel {
    /// An error.
    Error,
    /// A warning.
    Warn,
    /// Information.
    Info,
    /// Debugging detail.
    Debug,
    /// Tracing detail.
    Trace,
}

/// The most verbose level a logger lets through.
#[derive(Clone, Copy, Debug, PartialEq, Eq, Structural)]
pub enum LevelFilter {
    /// Nothing is logged.
    Off,
    /// Errors only.
    Error,
    /// Warnings and above.
    Warn,
    /// Information and above.
    Info,
    /// Debugging detail and above.
    Debug,
    /// Everything.
    Trace,
}

/// Verbosity rank of a level: higher is more verbose.
pub open spec fn spec_level_rank(level: LogLevel) -> int {
    match level {
        LogLevel::Error => 1,
        LogLevel::Warn => 2,
        LogLevel::Info => 3,
        LogLevel::Debug => 4,
        LogLevel::Trace => 5,
    }
}

/// Verbosity rank of a filter: levels of rank at most this pass.
pub open spec fn spec_filter_rank(filter: LevelFilter) -> int {
    match filter {
        LevelFilter::Off => 0,
        LevelFilter::Error => 1,
        LevelFilter::Warn => 2,
        LevelFilter::Info => 3,
        LevelFilter::Debug => 4,
        LevelFilter::Trace => 5,
    }
}

/// The logging capability: passed explicitly to the components that log,
/// holding the most verbose level it lets through.
#[derive(Debug)]
pub struct Logger {
    /// The configured maximum level.
    pub max_level: LevelFilter,
}

impl Logger {
    /// A logger that lets through statements up to `logging_level`.
    pub fn init(logging_level: LevelFilter) -> (r: Logger)
        ensures
            r.max_level == logging_level,
    {
        Logger { max_level: logging_level }
    }

    /// Whether a statement at `level` passes this logger's filter.
    pub fn enabled(&self, level: LogLevel) -> (r: bool)
        ensures
            r == (spec_level_rank(level) <= spec_filter_rank(self.max_level)),
    {
        let level_rank: u32 = match level {
            LogLevel::Error => 1,
            LogLevel::Warn => 2,
            LogLevel::Info => 3,
            LogLevel::Debug => 4,
            LogLevel::Trace => 5,
        };
        let filter_rank: u32 = match self.max_level {
            LevelFilter::Off => 0,
            LevelFilter::Error => 1,
            LevelFilter::Warn => 2,
            LevelFilter::Info => 3,
            LevelFilter::Debug => 4,
            LevelFilter::Trace => 5,
        };
        level_rank <= filter_rank
    }
}

/// The category of a driver diagnostic message.
#[derive(Clone, Copy, Debug, PartialEq, Eq, Structural)]
pub enum MessageCategory {
    /// General message.
    General,
    /// Performance message.
    Performance,
    /// Validation message.
    Validation,
    /// Device-address-binding message.
    DeviceAddressBinding,
    /// Any other category word.
    Unknown,
}

/// Maps a diagnostic message's severity word to the log level it is
/// dispatched at; a word that is not exactly one known severity bit is
/// traced.
pub fn debug_message_severity_level(severity: u32) -> (r: LogLevel)
    ensures
        severity == SEVERITY_ERROR ==> r == LogLevel::Error,
        severity == SEVERITY_WARNING ==> r == LogLevel::Warn,
        severity == SEVERITY_INFO ==> r == LogLevel::Info,
        severity == SEVERITY_VERBOSE ==> r == LogLevel::Trace,
        severity != SEVERITY_ERROR && severity != SEVERITY_WARNING && severity != SEVERITY_INFO
            && severity != SEVERITY_VERBOSE ==> r == LogLevel::Trace,
{
    if severity == SEVERITY_ERROR {
        LogLevel::Error
    } else if severity == SEVERITY_WARNING {
        LogLevel::Warn
    } else if severity == SEVERITY_INFO {
        LogLevel::Info
    } else {
        LogLevel::Trace
    }
}

/// Maps a diagnostic message's category word to a named category; a word
/// that is not exactly one known category bit is unknown.
pub fn debug_message_category(message_type: u32) -> (r: MessageCategory)
    ensures
        message_type == MESSAGE_TYPE_GENERAL ==> r == MessageCategory::General,
        message_type == MESSAGE_TYPE_PERFORMANCE ==> r == MessageCategory::Performance,
        message_type == MESSAGE_TYPE_VALIDATION ==> r == MessageCategory::Validation,
        message_type == MESSAGE_TYPE_DEVICE_ADDRESS_BINDING ==> r
            == MessageCategory::DeviceAddressBinding,
        message_type != MESSAGE_TYPE_GENERAL && message_type != MESSAGE_TYPE_PERFORMANCE
            && message_type != MESSAGE_TYPE_VALIDATION && message_type
            != MESSAGE_TYPE_DEVICE_ADDRESS_BINDING ==> r == MessageCategory::Unknown,
{
    if message_type == MESSAGE_TYPE_GENERAL {
        MessageCategory::General
    } else if message_type == MESSAGE_TYPE_PERFORMANCE {
        MessageCategory::Performance
    } else if message_type == MESSAGE_TYPE_VALIDATION {
        MessageCategory::Validation
    } else if message_type == MESSAGE_TYPE_DEVICE_ADDRESS_BINDING {
        MessageCategory::DeviceAddressBinding
    } else {
        MessageCategory::Unknown
    }
}

} // verus!
