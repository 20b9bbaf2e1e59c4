use haxball_replay_decoder::{decode_cesu8_string, parse_team_colors, DecodeError, ReplayReader};

#[test]
fn parse_varint_boundaries() {
    let bytes = [0x00, 0x7f, 0x80, 0x01, 0xff, 0xff, 0xff, 0xff, 0x0f];
    let mut reader = ReplayReader::new(&bytes);

    assert_eq!(reader.read_var_u32("v0").unwrap(), 0);
    assert_eq!(reader.read_var_u32("v1").unwrap(), 127);
    assert_eq!(reader.read_var_u32("v2").unwrap(), 128);
    assert_eq!(reader.read_var_u32("v3").unwrap(), u32::MAX);
}

#[test]
fn parse_nullable_string() {
    let bytes = [0x00, 0x04, b't', b'e', b's'];
    let mut reader = ReplayReader::new(&bytes);

    assert_eq!(reader.read_nullable_string("nullable").unwrap(), None);
    assert_eq!(
        reader.read_nullable_string("nullable").unwrap(),
        Some("tes".to_string())
    );
}

#[test]
fn parse_team_colors_fixture() {
    let bytes = [12, 0, 0, 0, 1, 2, 0, 0, 0, 2, 0, 0, 0, 3];
    let mut reader = ReplayReader::new(&bytes);
    let colors = parse_team_colors(&mut reader, "team").unwrap();

    assert_eq!(colors.angle, 12);
    assert_eq!(colors.text, 1);
    assert_eq!(colors.inner, vec![2, 3]);
}

#[test]
fn decodes_cesu8_surrogate_pairs() {
    assert_eq!(
        decode_cesu8_string(&[0xed, 0xa0, 0xbc, 0xed, 0xbf, 0x88]).unwrap(),
        "🏈"
    );
    assert_eq!(
        decode_cesu8_string(&[0xed, 0xa0, 0xbd, 0xed, 0xb8, 0x81]).unwrap(),
        "😁"
    );
}

#[test]
fn rejects_unpaired_cesu8_surrogates() {
    assert!(decode_cesu8_string(&[0xed, 0xa0, 0xbc]).is_err());
    assert!(decode_cesu8_string(&[0xed, 0xbf, 0x88]).is_err());
}

#[test]
fn varint_fifth_byte_with_high_bits_is_invalid() {
    let bytes = [0xff, 0xff, 0xff, 0xff, 0x10];
    let mut reader = ReplayReader::new(&bytes);
    match reader.read_var_u32("v") {
        Err(DecodeError::InvalidVarInt { context }) => assert_eq!(context, "v"),
        other => panic!("unexpected {:?}", other),
    }
}

#[test]
fn varint_truncated_is_eof() {
    let bytes = [0x80, 0x80];
    let mut reader = ReplayReader::new(&bytes);
    match reader.read_var_u32("v") {
        Err(DecodeError::UnexpectedEof { context }) => assert_eq!(context, "v"),
        other => panic!("unexpected {:?}", other),
    }
}

#[test]
fn big_endian_integers() {
    let bytes = [0x12, 0x34, 0xff, 0xfe, 0x80, 0x00, 0x00, 0x01, 0xff];
    let mut reader = ReplayReader::new(&bytes);
    assert_eq!(reader.read_u16("a").unwrap(), 0x1234);
    assert_eq!(reader.read_i16("b").unwrap(), -2);
    assert_eq!(reader.read_i32("c").unwrap(), i32::MIN + 1);
    assert_eq!(reader.read_i8("d").unwrap(), -1);
    assert_eq!(reader.remaining(), 0);
    assert!(reader.is_eof());
    assert!(matches!(reader.read_u8("e"), Err(DecodeError::UnexpectedEof { .. })));
}

#[test]
fn f64_bits_are_kept() {
    let bytes = 1.5f64.to_be_bytes();
    let mut reader = ReplayReader::new(&bytes);
    assert_eq!(f64::from_bits(reader.read_f64_bits("x").unwrap()), 1.5);
}

#[test]
fn string_utf8_and_cesu8() {
    let mut bytes = vec![3u8];
    bytes.extend_from_slice("hé".as_bytes());
    let mut reader = ReplayReader::new(&bytes);
    assert_eq!(reader.read_string("s").unwrap(), "hé");

    let cesu = [6u8, 0xed, 0xa0, 0xbc, 0xed, 0xbf, 0x88];
    let mut reader = ReplayReader::new(&cesu);
    assert_eq!(reader.read_string("s").unwrap(), "🏈");

    let bad = [1u8, 0xff];
    let mut reader = ReplayReader::new(&bad);
    assert!(matches!(reader.read_string("s"), Err(DecodeError::InvalidUtf8 { .. })));
}

#[test]
fn team_colors_with_too_many_stripes() {
    let bytes = [0, 0, 0, 0, 1, 4];
    let mut reader = ReplayReader::new(&bytes);
    match parse_team_colors(&mut reader, "team") {
        Err(DecodeError::InvalidVarInt { context }) => assert_eq!(context, "team.innerCount"),
        other => panic!("unexpected {:?}", other),
    }
}

#[test]
fn trailing_bytes_are_counted() {
    let bytes = [1, 2, 3];
    let mut reader = ReplayReader::new(&bytes);
    reader.read_u8("a").unwrap();
    match reader.ensure_eof("ctx") {
        Err(DecodeError::TrailingBytes { context, remaining }) => {
            assert_eq!(context, "ctx");
            assert_eq!(remaining, 2);
        }
        other => panic!("unexpected {:?}", other),
    }
    assert_eq!(reader.read_remaining_vec(), vec![2, 3]);
    assert!(reader.ensure_eof("ctx").is_ok());
}
