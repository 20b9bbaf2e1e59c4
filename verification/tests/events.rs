use std::io::Write;

use flate2::{write::DeflateEncoder, Compression};
use haxball_replay_decoder::codec::events::parse_event_payload;
use haxball_replay_decoder::codec::inflate::inflate_raw;
use haxball_replay_decoder::{DecodeError, EventPayload, ReplayReader};

fn deflate(bytes: &[u8]) -> Vec<u8> {
    let mut encoder = DeflateEncoder::new(Vec::new(), Compression::default());
    encoder.write_all(bytes).unwrap();
    encoder.finish().unwrap()
}

#[test]
fn ping_payload_reads_varint_pings() {
    let bytes = [0x02, 0x80, 0x01, 0x05];
    let mut reader = ReplayReader::new(&bytes);
    match parse_event_payload(&mut reader, 17, false) {
        Ok(EventPayload::Ping(p)) => assert_eq!(p.pings, vec![128, 5]),
        other => panic!("unexpected {:?}", other),
    }
    assert!(reader.is_eof());
}

#[test]
fn player_team_payload() {
    let bytes = [0x00, 0x00, 0x00, 0x07, 0xff];
    let mut reader = ReplayReader::new(&bytes);
    match parse_event_payload(&mut reader, 12, false) {
        Ok(EventPayload::SetPlayerTeam(e)) => {
            assert_eq!(e.player_id, 7);
            assert_eq!(e.team_id, -1);
        }
        other => panic!("unexpected {:?}", other),
    }
    assert!(reader.is_eof());
}

#[test]
fn unknown_type_is_refused_before_reading() {
    let bytes = [1, 2, 3];
    let mut reader = ReplayReader::new(&bytes);
    assert!(matches!(
        parse_event_payload(&mut reader, 27, false),
        Err(DecodeError::UnsupportedEventType(27))
    ));
    assert_eq!(reader.remaining(), 3);
}

#[test]
fn unknown_type_with_permission_keeps_the_rest() {
    let bytes = [9, 1, 2, 3];
    let mut reader = ReplayReader::new(&bytes);
    assert_eq!(reader.read_u8("skip").unwrap(), 9);
    match parse_event_payload(&mut reader, 200, true) {
        Ok(EventPayload::Unknown { event_type, raw_payload }) => {
            assert_eq!(event_type, 200);
            assert_eq!(raw_payload, vec![1, 2, 3]);
        }
        other => panic!("unexpected {:?}", other),
    }
    assert!(reader.is_eof());
}

#[test]
fn known_type_does_not_depend_on_permission() {
    let bytes = [0x02, 0x80, 0x01, 0x05];
    let mut a = ReplayReader::new(&bytes);
    let mut b = ReplayReader::new(&bytes);
    let with = parse_event_payload(&mut a, 17, true).unwrap();
    let without = parse_event_payload(&mut b, 17, false).unwrap();
    assert_eq!(with, without);
    assert_eq!(with.event_type_u8(), 17);
}

#[test]
fn truncated_set_stadium_payload() {
    let bytes = [0xff, 0xff, 0x00, 0x01];
    let mut reader = ReplayReader::new(&bytes);
    match parse_event_payload(&mut reader, 11, false) {
        Err(DecodeError::UnexpectedEof { context }) => assert_eq!(context, "events.setStadium.packed"),
        other => panic!("unexpected {:?}", other),
    }
    assert_eq!(reader.remaining(), 2);
}

#[test]
fn binary_custom_payload_is_inflated() {
    let mut inner = 42u32.to_be_bytes().to_vec();
    inner.extend_from_slice(&[7, 8, 9]);
    let packed = deflate(&inner);
    let mut bytes = (packed.len() as u32).to_be_bytes().to_vec();
    bytes.extend_from_slice(&packed);
    let mut reader = ReplayReader::new(&bytes);
    match parse_event_payload(&mut reader, 25, false) {
        Ok(EventPayload::BinaryCustomEvent(e)) => {
            assert_eq!(e.event_type, 42);
            assert_eq!(e.data, vec![7, 8, 9]);
        }
        other => panic!("unexpected {:?}", other),
    }
    assert!(reader.is_eof());
}

#[test]
fn failed_fixed_width_read_leaves_the_reader() {
    let bytes = [1, 2];
    let mut reader = ReplayReader::new(&bytes);
    assert!(matches!(reader.read_u32("x"), Err(DecodeError::UnexpectedEof { .. })));
    assert_eq!(reader.remaining(), 2);
    assert!(reader.read_bytes(3, "y").is_err());
    assert_eq!(reader.remaining(), 2);
    assert_eq!(reader.read_u16("z").unwrap(), 0x0102);
}

#[test]
fn inflate_complete_stream() {
    let data: Vec<u8> = (0..100_000u32).map(|i| (i * 7 % 251) as u8).collect();
    let packed = deflate(&data);
    assert_eq!(inflate_raw(&packed, "ctx").unwrap(), data);
    assert_eq!(inflate_raw(&deflate(&[]), "ctx").unwrap(), Vec::<u8>::new());
}

#[test]
fn inflate_trailing_bytes() {
    let mut packed = deflate(b"hello");
    packed.push(0);
    match inflate_raw(&packed, "ctx") {
        Err(DecodeError::TrailingCompressedData { context }) => assert_eq!(context, "ctx"),
        other => panic!("unexpected {:?}", other),
    }
}

#[test]
fn inflate_cut_short_or_corrupt() {
    let packed = deflate(b"hello hello hello hello");
    match inflate_raw(&packed[..packed.len() - 2], "ctx") {
        Err(DecodeError::IncompleteCompression { context }) => assert_eq!(context, "ctx"),
        other => panic!("unexpected {:?}", other),
    }
    match inflate_raw(&[0xff, 0xff, 0xff, 0xff], "ctx") {
        Err(DecodeError::Compression { context, .. }) => assert_eq!(context, "ctx"),
        other => panic!("unexpected {:?}", other),
    }
}

#[test]
fn corrupt_stream_message_is_fixed() {
    let error = inflate_raw(&[0xff, 0xff, 0xff, 0xff], "ctx").unwrap_err();
    assert_eq!(error.message(), "raw deflate error while reading ctx: deflate decompression error");
}

#[test]
fn failed_string_read_leaves_the_reader_after_the_length() {
    let bytes = [0x05, b'a', b'b'];
    let mut reader = ReplayReader::new(&bytes);
    assert!(matches!(reader.read_string("s"), Err(DecodeError::UnexpectedEof { .. })));
    assert_eq!(reader.remaining(), 2);
}
