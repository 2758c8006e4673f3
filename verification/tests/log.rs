use vkscaffold::log::{
    debug_message_category, debug_message_severity_level, LevelFilter, LogLevel, Logger,
    MessageCategory, MESSAGE_TYPE_DEVICE_ADDRESS_BINDING, MESSAGE_TYPE_GENERAL,
    MESSAGE_TYPE_PERFORMANCE, MESSAGE_TYPE_VALIDATION, SEVERITY_ERROR, SEVERITY_INFO,
    SEVERITY_VERBOSE, SEVERITY_WARNING,
};

#[test]
fn test_logger_enabled() {
    let logger = Logger::init(LevelFilter::Warn);
    assert!(logger.enabled(LogLevel::Error));
    assert!(logger.enabled(LogLevel::Warn));
    assert!(!logger.enabled(LogLevel::Info));
    assert!(!logger.enabled(LogLevel::Trace));

    let silent = Logger::init(LevelFilter::Off);
    assert!(!silent.enabled(LogLevel::Error));

    let verbose = Logger::init(LevelFilter::Trace);
    assert!(verbose.enabled(LogLevel::Trace));
}

#[test]
fn test_debug_message_severity_dispatch() {
    assert_eq!(debug_message_severity_level(SEVERITY_ERROR), LogLevel::Error);
    assert_eq!(debug_message_severity_level(SEVERITY_WARNING), LogLevel::Warn);
    assert_eq!(debug_message_severity_level(SEVERITY_INFO), LogLevel::Info);
    assert_eq!(debug_message_severity_level(SEVERITY_VERBOSE), LogLevel::Trace);
    // An unknown severity word is traced.
    assert_eq!(debug_message_severity_level(0), LogLevel::Trace);
    assert_eq!(
        debug_message_severity_level(SEVERITY_ERROR | SEVERITY_INFO),
        LogLevel::Trace
    );
}

#[test]
fn test_debug_message_category_dispatch() {
    assert_eq!(
        debug_message_category(MESSAGE_TYPE_GENERAL),
        MessageCategory::General
    );
    assert_eq!(
        debug_message_category(MESSAGE_TYPE_PERFORMANCE),
        MessageCategory::Performance
    );
    assert_eq!(
        debug_message_category(MESSAGE_TYPE_VALIDATION),
        MessageCategory::Validation
    );
    assert_eq!(
        debug_message_category(MESSAGE_TYPE_DEVICE_ADDRESS_BINDING),
        MessageCategory::DeviceAddressBinding
    );
    assert_eq!(debug_message_category(0), MessageCategory::Unknown);
    assert_eq!(
        debug_message_category(MESSAGE_TYPE_GENERAL | MESSAGE_TYPE_VALIDATION),
        MessageCategory::Unknown
    );
}
