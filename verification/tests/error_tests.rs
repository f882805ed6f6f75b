use hybridkv::error::{HkvError, HkvErrorCategory};

#[test]
fn maps_error_categories() {
    assert_eq!(HkvError::InvalidInput.category(), HkvErrorCategory::Client);
    assert_eq!(HkvError::OutOfMemory.category(), HkvErrorCategory::Server);
    assert_eq!(HkvError::Busy.category(), HkvErrorCategory::Transient);
    assert_eq!(HkvError::VersionMismatch.category(), HkvErrorCategory::Protocol);
}

#[test]
fn retryable_only_for_transient() {
    assert!(HkvError::Busy.is_retryable());
    assert!(!HkvError::InvalidInput.is_retryable());
}

#[test]
fn converts_from_code() {
    assert_eq!(HkvError::from_code(1), Some(HkvError::InvalidInput));
    assert_eq!(HkvError::from_code(99), None);
}

#[test]
fn every_code_round_trips() {
    let all = [
        HkvError::InvalidInput,
        HkvError::NotFound,
        HkvError::KeyTooLong,
        HkvError::ValueTooLong,
        HkvError::OutOfMemory,
        HkvError::CapacityExceeded,
        HkvError::InternalError,
        HkvError::Busy,
        HkvError::Timeout,
        HkvError::Interrupted,
        HkvError::VersionMismatch,
        HkvError::ProtocolViolation,
        HkvError::UnsupportedCommand,
    ];
    for e in all {
        assert_eq!(HkvError::from_code(e.code()), Some(e));
    }
    assert_eq!(HkvError::NotFound.code(), 2);
    assert_eq!(HkvError::Timeout.code(), 21);
}

#[test]
fn labels_are_stable() {
    assert_eq!(HkvError::KeyTooLong.label(), "key too long");
    assert_eq!(HkvError::UnsupportedCommand.label(), "unsupported command");
}
