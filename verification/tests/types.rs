use haxball_replay_decoder::{
    BackgroundType, CameraFollow, DecodeError, GamePlayState, OperationType, ValidationIssue,
    ValidationProfile, ValidationReport, ValidationSeverity,
};

#[test]
fn operation_codes_round_trip() {
    for value in 0u8..=255 {
        match OperationType::from_u8(value) {
            Some(op) => {
                assert!(value <= 26);
                assert_eq!(op.as_u8(), value);
            }
            None => assert!(value > 26),
        }
    }
    assert_eq!(OperationType::from_u8(11), Some(OperationType::SetStadium));
    assert_eq!(OperationType::SetPlayerIdentity.as_u8(), 26);
}

#[test]
fn other_codes_round_trip() {
    for value in -3i32..8 {
        assert_eq!(BackgroundType::from_i32(value).as_i32(), value);
        assert_eq!(GamePlayState::from_i32(value).as_i32(), value);
    }
    for value in 0u8..=255 {
        assert_eq!(CameraFollow::from_u8(value).as_u8(), value);
    }
    assert_eq!(BackgroundType::from_i32(1), BackgroundType::Grass);
    assert_eq!(BackgroundType::from_i32(7), BackgroundType::Unknown(7));
    assert_eq!(CameraFollow::from_u8(1), CameraFollow::Player);
    assert_eq!(GamePlayState::from_i32(3), GamePlayState::Ending);
    assert_eq!(BackgroundType::Unknown(1).as_i32(), 1);
    assert_eq!(BackgroundType::from_i32(BackgroundType::Unknown(1).as_i32()), BackgroundType::Grass);
}

fn issue(severity: ValidationSeverity) -> ValidationIssue {
    ValidationIssue {
        code: "X".to_string(),
        severity,
        path: "/".to_string(),
        message: String::new(),
    }
}

#[test]
fn report_counts_errors_only() {
    let mut report = ValidationReport::new(ValidationProfile::Strict);
    assert!(report.is_valid());
    assert_eq!(report.error_count(), 0);
    report.push(issue(ValidationSeverity::Warning));
    assert!(report.is_valid());
    report.push(issue(ValidationSeverity::Error));
    report.push(issue(ValidationSeverity::Error));
    assert!(!report.is_valid());
    assert_eq!(report.error_count(), 2);
    assert_eq!(report.issues.len(), 3);
}

#[test]
fn error_messages() {
    let e = DecodeError::TrailingBytes { context: "ctx".to_string(), remaining: 12 };
    assert_eq!(e.message(), "trailing unread bytes while reading ctx: 12");
    let e = DecodeError::UnsupportedEventType(42);
    assert_eq!(e.message(), "unsupported event type: 42");
    let e = DecodeError::InvalidMagic { found: *b"ABCD" };
    assert_eq!(e.message(), "invalid replay signature: expected HBR2, got [65, 66, 67, 68]");
    let e = DecodeError::UnknownEventBoundaryUnsupported { event_type: 200 };
    assert_eq!(e.message(), "cannot preserve unknown event type 200 without a payload boundary");
    let source = std::str::from_utf8(&[0xff]).unwrap_err();
    let e = DecodeError::InvalidUtf8 { context: "s".to_string(), source };
    assert_eq!(e.message(), format!("invalid UTF-8 while reading s: {}", source));
}

#[test]
fn defaults() {
    let options = haxball_replay_decoder::DecodeOptions::default();
    assert_eq!(options.validation_profile, ValidationProfile::Strict);
    assert!(!options.allow_unknown_event_types);
    assert_eq!(ValidationProfile::default(), ValidationProfile::Strict);
}
