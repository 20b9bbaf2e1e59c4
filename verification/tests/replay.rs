use std::io::Write;

use flate2::{write::DeflateEncoder, Compression};
use haxball_replay_decoder::codec::replay::parse_replay;
use haxball_replay_decoder::{
    decode, decode_with_options, validate, validate_with_profile, DecodeError, DecodeOptions,
    EventPayload, OperationType, ValidationProfile, ValidationSeverity,
};

fn deflate(bytes: &[u8]) -> Vec<u8> {
    let mut encoder = DeflateEncoder::new(Vec::new(), Compression::default());
    encoder.write_all(bytes).unwrap();
    encoder.finish().unwrap()
}

fn replay_file(version: u32, total_frames: u32, body: &[u8]) -> Vec<u8> {
    let mut out = b"HBR2".to_vec();
    out.extend_from_slice(&version.to_be_bytes());
    out.extend_from_slice(&total_frames.to_be_bytes());
    out.extend_from_slice(&deflate(body));
    out
}

/// A room with a name, the built-in stadium "Big", no game and no players.
fn room_state() -> Vec<u8> {
    let mut out = vec![5, b'r', b'o', b'o', b'm'];
    out.push(1); // teams locked
    out.extend_from_slice(&3i32.to_be_bytes());
    out.extend_from_slice(&5i32.to_be_bytes());
    out.extend_from_slice(&2i16.to_be_bytes());
    out.push(1);
    out.push(0);
    out.push(3); // stadium "Big"
    out.push(0); // no game
    out.push(0); // no players
    for _ in 0..2 {
        out.push(0);
        out.extend_from_slice(&0i32.to_be_bytes());
        out.push(0);
    }
    out
}

fn event(delta: u8, by_id: u16, event_type: u8, payload: &[u8]) -> Vec<u8> {
    let mut out = vec![delta];
    out.extend_from_slice(&by_id.to_be_bytes());
    out.push(event_type);
    out.extend_from_slice(payload);
    out
}

/// No goals, the room, then a ping at frame 3 and an input at frame 5.
fn body() -> Vec<u8> {
    let mut out = vec![0, 0];
    out.extend_from_slice(&room_state());
    out.extend_from_slice(&event(3, 0, 17, &[1, 5]));
    out.extend_from_slice(&event(2, 1, 3, &7u32.to_be_bytes()));
    out
}

fn first_event_offset() -> usize {
    2 + room_state().len()
}

#[test]
fn decodes_synthetic_replay() {
    let bytes = replay_file(3, 10, &body());
    let replay = decode(&bytes).expect("replay should decode");
    assert_eq!(replay.version, 3);
    assert_eq!(replay.total_frames, 10);
    assert_eq!(replay.goal_markers.len(), 0);
    assert_eq!(replay.events.len(), 2);
    assert_eq!(replay.events[0].frame_no, 3);
    assert_eq!(replay.events[1].frame_no, 5);
    assert_eq!(replay.events[1].by_id, 1);
    match &replay.events[0].payload {
        EventPayload::Ping(p) => assert_eq!(p.pings, vec![5]),
        other => panic!("unexpected {:?}", other),
    }
    match &replay.events[1].payload {
        EventPayload::SendInput(p) => assert_eq!(p.input, 7),
        other => panic!("unexpected {:?}", other),
    }
    assert_eq!(replay.events[0].operation_type(), Some(OperationType::Ping));
    assert_eq!(replay.events[1].event_type_u8(), 3);
    let room = &replay.room_data;
    assert_eq!(room.name.as_deref(), Some("room"));
    assert!(room.teams_locked);
    assert_eq!(room.score_limit, 3);
    assert_eq!(room.time_limit, 5);
    assert_eq!(room.kick_rate_max, 2);
    assert_eq!(room.stadium.default_stadium_id, 3);
    assert_eq!(room.stadium.name.as_deref(), Some("Big"));
    assert!(!room.stadium.is_custom());
    assert!(room.game_state.is_none());
    assert!(validate(&bytes).is_valid());
}

#[test]
fn rejects_bad_magic() {
    let mut bytes = replay_file(3, 10, &body());
    bytes[0] = b'X';

    let error = decode(&bytes).expect_err("bad magic should fail");
    assert!(matches!(error, DecodeError::InvalidMagic { .. }));
}

#[test]
fn rejects_unsupported_version() {
    let mut bytes = replay_file(3, 10, &body());
    bytes[4..8].copy_from_slice(&4_u32.to_be_bytes());

    let error = decode(&bytes).expect_err("unsupported version should fail");
    assert!(matches!(error, DecodeError::UnsupportedReplayVersion(4)));
}

#[test]
fn rejects_truncated_file() {
    let mut bytes = replay_file(3, 10, &body());
    assert!(bytes.len() > 28);
    bytes.truncate(28);

    assert!(decode(&bytes).is_err(), "truncated replay should fail");
}

#[test]
fn rejects_short_header() {
    let error = decode(b"HBR2\0\0\0\x03").expect_err("short header should fail");
    match error {
        DecodeError::UnexpectedEof { context } => assert_eq!(context, "replay header"),
        other => panic!("unexpected {:?}", other),
    }
}

#[test]
fn rejects_invalid_deflate_payload() {
    let mut bytes = replay_file(3, 10, &body());
    bytes[12] = 0xff;

    let error = decode(&bytes).expect_err("invalid deflate payload should fail");
    assert!(matches!(
        error,
        DecodeError::Compression { .. }
            | DecodeError::IncompleteCompression { .. }
            | DecodeError::TrailingCompressedData { .. }
    ));
}

#[test]
fn rejects_trailing_compressed_data() {
    let mut bytes = replay_file(3, 10, &body());
    bytes.push(0);
    let error = decode(&bytes).expect_err("trailing data should fail");
    match error {
        DecodeError::TrailingCompressedData { context } => assert_eq!(context, "replay.packedContents"),
        other => panic!("unexpected {:?}", other),
    }
}

#[test]
fn rejects_invalid_varint_or_string_encoding() {
    let mut inflated = body();
    // roomState.name nullable string length varint
    inflated[2] = 0xff;
    let bytes = replay_file(3, 10, &inflated);

    assert!(decode(&bytes).is_err(), "invalid string/varint should fail");
}

#[test]
fn rejects_truncated_nested_payload() {
    let mut inflated = body();
    let offset = first_event_offset();
    // mutate first event from Ping(17) to SetStadium(11), then claim huge nested payload.
    assert_eq!(inflated[offset + 3], 17);
    inflated[offset + 3] = 11;
    inflated[offset + 4] = 0xff;
    inflated[offset + 5] = 0xff;
    let bytes = replay_file(3, 10, &inflated);

    let error = decode(&bytes).expect_err("truncated nested payload should fail");
    assert!(matches!(error, DecodeError::UnexpectedEof { .. }));
}

#[test]
fn rejects_non_monotonic_or_overflowed_frame_deltas() {
    let mut inflated = body();
    let offset = first_event_offset();
    // Replace first event frame delta(3) with u32::MAX to force overflow on next event.
    assert_eq!(inflated[offset], 0x03);
    inflated.splice(offset..(offset + 1), [0xff, 0xff, 0xff, 0xff, 0x0f]);
    let bytes = replay_file(3, 10, &inflated);

    let error = decode(&bytes).expect_err("overflowed frame deltas should fail");
    assert!(matches!(
        error,
        DecodeError::IntegerOverflow { .. } | DecodeError::ValidationFailed(_)
    ));
    match error {
        DecodeError::IntegerOverflow { context } => assert_eq!(context, "replay.events.frameNo"),
        other => panic!("unexpected {:?}", other),
    }
}

#[test]
fn frame_past_total_fails_strict_validation() {
    let bytes = replay_file(3, 4, &body());
    match decode(&bytes).expect_err("event after the last frame") {
        DecodeError::ValidationFailed(report) => {
            assert_eq!(report.error_count(), 1);
            assert_eq!(report.issues[0].code, "EVENT_FRAME_OUT_OF_BOUNDS");
            assert_eq!(report.issues[0].path, "events[1].frameNo");
            assert_eq!(report.issues[0].message, "event frame 5 exceeds total frames 4");
        }
        other => panic!("unexpected {:?}", other),
    }
    let options = DecodeOptions {
        validation_profile: ValidationProfile::StructuralOnly,
        allow_unknown_event_types: false,
    };
    assert!(decode_with_options(&bytes, options).is_ok());
}

#[test]
fn version_issue_depends_on_profile() {
    let bytes = replay_file(4, 10, &body());
    let strict = validate(&bytes);
    assert!(!strict.is_valid());
    assert_eq!(strict.issues[0].code, "UNSUPPORTED_VERSION");
    assert_eq!(strict.issues[0].severity, ValidationSeverity::Error);
    assert_eq!(strict.issues[0].message, "only replay version 3 is supported in v1, got 4");
    let structural = validate_with_profile(&bytes, ValidationProfile::StructuralOnly);
    assert!(structural.is_valid());
    assert_eq!(structural.issues.len(), 1);
    assert_eq!(structural.issues[0].severity, ValidationSeverity::Warning);
    assert_eq!(structural.error_count(), 0);
}

#[test]
fn decode_errors_become_one_issue() {
    let mut bytes = replay_file(3, 10, &body());
    bytes[0] = b'X';
    let report = validate(&bytes);
    assert_eq!(report.issues.len(), 1);
    assert_eq!(report.issues[0].code, "DECODE_ERROR");
    assert_eq!(report.issues[0].path, "/");
    assert_eq!(
        report.issues[0].message,
        "Strict validation failed during decoding: invalid replay signature: expected HBR2, got [88, 66, 82, 50]"
    );
    assert_eq!(report.error_count(), 1);
}

#[test]
fn goal_markers_accumulate_and_are_checked() {
    let mut inflated = vec![0, 2, 4, 1, 3, 7];
    inflated.extend_from_slice(&room_state());
    let bytes = replay_file(3, 10, &inflated);
    let report = validate(&bytes);
    assert_eq!(report.issues.len(), 1);
    assert_eq!(report.issues[0].code, "INVALID_TEAM_ID");
    assert_eq!(report.issues[0].path, "goalMarkers[1].teamId");
    assert_eq!(report.issues[0].message, "team id 7 is outside expected range [0, 2]");
    let mut options = DecodeOptions::default();
    options.validation_profile = ValidationProfile::StructuralOnly;
    let replay = decode_with_options(&bytes, options).unwrap();
    assert_eq!(replay.goal_markers.len(), 2);
    assert_eq!(replay.goal_markers[0].frame_no, 4);
    assert_eq!(replay.goal_markers[1].frame_no, 7);
    assert!(replay.events.is_empty());
}

#[test]
fn unknown_events_need_permission() {
    let mut inflated = body();
    inflated.extend_from_slice(&event(0, 2, 99, &[9, 8, 7]));
    let bytes = replay_file(3, 10, &inflated);
    assert!(matches!(decode(&bytes), Err(DecodeError::UnsupportedEventType(99))));
    let options = DecodeOptions { validation_profile: ValidationProfile::Strict, allow_unknown_event_types: true };
    let replay = decode_with_options(&bytes, options).unwrap();
    match &replay.events[2].payload {
        EventPayload::Unknown { event_type, raw_payload } => {
            assert_eq!(*event_type, 99);
            assert_eq!(raw_payload, &vec![9, 8, 7]);
        }
        other => panic!("unexpected {:?}", other),
    }
    assert_eq!(replay.events[2].operation_type(), None);
    assert_eq!(replay.events[2].event_type_u8(), 99);
    let report = validate(&bytes);
    assert!(report.is_valid());
    assert_eq!(report.issues.len(), 1);
    assert_eq!(report.issues[0].code, "UNKNOWN_EVENT_TYPE");
    assert_eq!(report.issues[0].message, "unknown event type 99 was preserved as raw payload");
}

fn single_event_replay(event_type: u8, payload: &[u8]) -> Vec<u8> {
    let mut inflated = vec![0, 0];
    inflated.extend_from_slice(&room_state());
    inflated.extend_from_slice(&event(1, 0, event_type, payload));
    replay_file(3, 10, &inflated)
}

#[test]
fn nested_stadium_is_decompressed() {
    let packed = deflate(&[5]);
    let mut payload = (packed.len() as u16).to_be_bytes().to_vec();
    payload.extend_from_slice(&packed);
    let replay = decode(&single_event_replay(11, &payload)).unwrap();
    match &replay.events[0].payload {
        EventPayload::SetStadium(s) => {
            assert_eq!(s.stadium.default_stadium_id, 5);
            assert_eq!(s.stadium.name.as_deref(), Some("Hockey"));
        }
        other => panic!("unexpected {:?}", other),
    }

    let packed = deflate(&[5, 0]);
    let mut payload = (packed.len() as u16).to_be_bytes().to_vec();
    payload.extend_from_slice(&packed);
    match decode(&single_event_replay(11, &payload)) {
        Err(DecodeError::TrailingBytes { context, remaining }) => {
            assert_eq!(context, "events.setStadium.inner");
            assert_eq!(remaining, 1);
        }
        other => panic!("unexpected {:?}", other),
    }
}

#[test]
fn binary_custom_event_is_decompressed() {
    let packed = deflate(&[0, 0, 0, 7, 1, 2, 3]);
    let mut payload = (packed.len() as u32).to_be_bytes().to_vec();
    payload.extend_from_slice(&packed);
    let replay = decode(&single_event_replay(25, &payload)).unwrap();
    match &replay.events[0].payload {
        EventPayload::BinaryCustomEvent(e) => {
            assert_eq!(e.event_type, 7);
            assert_eq!(e.data, vec![1, 2, 3]);
        }
        other => panic!("unexpected {:?}", other),
    }
}

#[test]
fn custom_event_keeps_json_text() {
    let mut payload = 4u32.to_be_bytes().to_vec();
    payload.push(7);
    payload.extend_from_slice(b"{\"a\":1}");
    let replay = decode(&single_event_replay(24, &payload)).unwrap();
    match &replay.events[0].payload {
        EventPayload::CustomEvent(e) => {
            assert_eq!(e.event_type, 4);
            assert_eq!(e.data, "{\"a\":1}");
        }
        other => panic!("unexpected {:?}", other),
    }
    let mut payload = 4u32.to_be_bytes().to_vec();
    payload.push(3);
    payload.extend_from_slice(b"{a:");
    match decode(&single_event_replay(24, &payload)) {
        Err(DecodeError::InvalidJson { context, .. }) => assert_eq!(context, "events.customEvent.data"),
        other => panic!("unexpected {:?}", other),
    }
}

#[test]
fn disc_properties_follow_flags() {
    let mut payload = 9i32.to_be_bytes().to_vec();
    payload.push(1);
    let flags: u16 = 1 | (1 << 10) | (1 << 13);
    payload.extend_from_slice(&flags.to_be_bytes());
    payload.extend_from_slice(&2.5f32.to_bits().to_be_bytes());
    payload.extend_from_slice(&(-4i32).to_be_bytes());
    let bytes = single_event_replay(23, &payload);
    let report = validate(&bytes);
    assert_eq!(report.issues.len(), 1);
    assert_eq!(report.issues[0].code, "INVALID_DISC_PROPERTIES_FLAGS");
    assert_eq!(report.issues[0].path, "events[0].payload.flags");
    assert_eq!(report.issues[0].message, "unexpected flag bits are set: 0x2000");
    let options = DecodeOptions { validation_profile: ValidationProfile::StructuralOnly, allow_unknown_event_types: false };
    let replay = decode_with_options(&bytes, options).unwrap();
    match &replay.events[0].payload {
        EventPayload::SetDiscProperties(e) => {
            assert_eq!(e.id, 9);
            assert!(e.is_player);
            assert_eq!(e.data1[0].map(f32::from_bits), Some(2.5));
            assert!(e.data1[1..].iter().all(|d| d.is_none()));
            assert_eq!(e.data2, [Some(-4), None, None]);
        }
        other => panic!("unexpected {:?}", other),
    }
}

#[test]
fn team_change_with_bad_team_is_reported() {
    let mut payload = 1i32.to_be_bytes().to_vec();
    payload.push(0xff);
    let report = validate(&single_event_replay(12, &payload));
    assert_eq!(report.issues.len(), 1);
    assert_eq!(report.issues[0].path, "events[0].payload.teamId");
    assert_eq!(report.issues[0].message, "team id -1 is outside expected range [0, 2]");
}

#[test]
fn headless_avatar_with_cesu8_emoji() {
    let mut payload = vec![7, 0xed, 0xa0, 0xbc, 0xed, 0xbf, 0x88];
    payload.extend_from_slice(&3i32.to_be_bytes());
    let replay = decode(&single_event_replay(22, &payload)).unwrap();
    match &replay.events[0].payload {
        EventPayload::SetHeadlessAvatar(e) => {
            assert_eq!(e.value.as_deref(), Some("🏈"));
            assert_eq!(e.player_id, 3);
        }
        other => panic!("unexpected {:?}", other),
    }
}

#[test]
fn strict_decode_accepts_what_strict_validation_accepts() {
    let mut unknown = body();
    unknown.extend_from_slice(&event(0, 2, 99, &[9, 8, 7]));
    let mut bad_magic = replay_file(3, 10, &body());
    bad_magic[0] = b'X';
    let cases = vec![
        replay_file(3, 10, &body()),
        replay_file(3, 4, &body()),
        replay_file(4, 10, &body()),
        replay_file(3, 10, &unknown),
        bad_magic,
    ];
    let options = DecodeOptions { validation_profile: ValidationProfile::Strict, allow_unknown_event_types: true };
    let accepted: Vec<bool> = cases.iter().map(|b| decode_with_options(b, options.clone()).is_ok()).collect();
    let valid: Vec<bool> = cases.iter().map(|b| validate(b).is_valid()).collect();
    assert_eq!(accepted, vec![true, false, false, true, false]);
    assert_eq!(valid, accepted);
}

#[test]
fn structural_validity_is_decodability() {
    let mut bad_magic = replay_file(3, 10, &body());
    bad_magic[0] = b'X';
    let mut cut = replay_file(3, 10, &body());
    cut.truncate(20);
    let cases = vec![replay_file(3, 10, &body()), replay_file(4, 2, &body()), bad_magic, cut];
    for bytes in &cases {
        let report = validate_with_profile(bytes, ValidationProfile::StructuralOnly);
        assert_eq!(report.is_valid(), parse_replay(bytes, true).is_ok());
    }
    assert!(validate_with_profile(&cases[1], ValidationProfile::StructuralOnly).is_valid());
    assert!(!validate_with_profile(&cases[2], ValidationProfile::StructuralOnly).is_valid());
}

#[test]
fn strict_report_valid_only_with_unknown_event_warnings() {
    let mut unknown = body();
    unknown.extend_from_slice(&event(0, 2, 99, &[9, 8, 7]));
    for bytes in [replay_file(3, 10, &unknown), replay_file(3, 4, &unknown), replay_file(4, 10, &body())] {
        let report = validate(&bytes);
        let only_unknown = report.issues.iter().all(|i| i.code == "UNKNOWN_EVENT_TYPE");
        assert_eq!(report.is_valid(), only_unknown);
    }
    assert_eq!(validate(&replay_file(4, 10, &body())).issues[0].code, "UNSUPPORTED_VERSION");
}

#[test]
fn decode_and_parse_agree_on_version() {
    let bytes = replay_file(7, 10, &body());
    let parsed = parse_replay(&bytes, false).unwrap();
    match decode(&bytes) {
        Err(DecodeError::UnsupportedReplayVersion(v)) => assert_eq!(v, parsed.version),
        other => panic!("unexpected {:?}", other),
    }
}
