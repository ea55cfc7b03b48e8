use lib::error::CordError;
use lib::messages::events::server::status_update::StatusUpdateEvent;
use lib::messages::events::server::LogEvent;
use lib::protocol::error::ProtocolError;
use lib::protocol::msgpack::float::widen_f32;
use lib::protocol::msgpack::value::Value;
use lib::protocol::msgpack::MsgPack;
use lib::util::logger::LogLevel;

fn decode(bytes: &[u8]) -> Value {
    MsgPack::deserialize(bytes).expect("decodes")
}

fn decode_err(bytes: &[u8]) -> ProtocolError {
    match MsgPack::deserialize(bytes) {
        Err(CordError::Protocol(e)) => e,
        other => panic!("expected a protocol error, got {:?}", other),
    }
}

#[test]
fn decodes_scalars() {
    assert!(decode(&[0xc0]).is_nil());
    assert_eq!(decode(&[0xc3]).as_bool(), Some(true));
    assert_eq!(decode(&[0xc2]).as_bool(), Some(false));
    assert_eq!(decode(&[0x7f]).as_integer(), Some(127));
    assert_eq!(decode(&[0xe0]).as_integer(), Some(-32));
    assert_eq!(decode(&[0xff]).as_integer(), Some(-1));
    assert_eq!(decode(&[0xcc, 0xfe]).as_uinteger(), Some(254));
    assert_eq!(decode(&[0xcd, 0x01, 0x02]).as_uinteger(), Some(0x0102));
    assert_eq!(decode(&[0xce, 0, 0, 1, 0]).as_uinteger(), Some(256));
    assert_eq!(
        decode(&[0xcf, 0xff, 0xff, 0xff, 0xff, 0xff, 0xff, 0xff, 0xff]).as_uinteger(),
        Some(u64::MAX)
    );
    assert_eq!(decode(&[0xd0, 0x80]).as_integer(), Some(-128));
    assert_eq!(decode(&[0xd1, 0xff, 0xfe]).as_integer(), Some(-2));
    assert_eq!(decode(&[0xd2, 0x80, 0, 0, 0]).as_integer(), Some(i32::MIN as i64));
    assert_eq!(
        decode(&[0xd3, 0x80, 0, 0, 0, 0, 0, 0, 0]).as_integer(),
        Some(i64::MIN)
    );
}

#[test]
fn integer_views_convert_when_in_range() {
    assert_eq!(decode(&[0x05]).as_uinteger(), Some(5));
    assert_eq!(decode(&[0xff]).as_uinteger(), None);
    assert_eq!(decode(&[0xcc, 0x10]).as_integer(), Some(16));
    assert_eq!(
        decode(&[0xcf, 0xff, 0xff, 0xff, 0xff, 0xff, 0xff, 0xff, 0xff]).as_integer(),
        None
    );
}

#[test]
fn decodes_floats_as_double_bits() {
    let one = 1.0f64.to_bits().to_be_bytes();
    let mut bytes = vec![0xcb];
    bytes.extend_from_slice(&one);
    assert_eq!(decode(&bytes).as_float(), Some(1.0f64.to_bits()));

    for x in [0.0f32, -0.0, 1.5, -2.25, f32::MAX, f32::MIN_POSITIVE, 1e-45, f32::INFINITY] {
        let mut b = vec![0xca];
        b.extend_from_slice(&x.to_bits().to_be_bytes());
        assert_eq!(decode(&b).as_float(), Some((x as f64).to_bits()), "{}", x);
        assert_eq!(widen_f32(x.to_bits()), (x as f64).to_bits());
    }
}

#[test]
fn widening_keeps_nan_a_nan() {
    let bits = widen_f32(f32::NAN.to_bits());
    assert!(f64::from_bits(bits).is_nan());
}

#[test]
fn decodes_strings_of_each_width() {
    assert_eq!(decode(&[0xa3, b'a', b'b', b'c']).as_str(), Some("abc"));
    assert_eq!(decode(&[0xd9, 2, b'h', b'i']).as_str(), Some("hi"));
    assert_eq!(decode(&[0xda, 0, 1, b'x']).as_str(), Some("x"));
    assert_eq!(decode(&[0xdb, 0, 0, 0, 2, 0xc3, 0xa9]).as_str(), Some("é"));
}

#[test]
fn rejects_bad_utf8_and_short_input() {
    assert_eq!(decode_err(&[0xa2, 0xc3, 0x28]), ProtocolError::InvalidUtf8);
    assert_eq!(decode_err(&[]), ProtocolError::InvalidLength);
    assert_eq!(decode_err(&[0xa3, b'a']), ProtocolError::InvalidLength);
    assert_eq!(decode_err(&[0xcd, 0x01]), ProtocolError::InvalidLength);
    assert_eq!(decode_err(&[0x92, 0x01]), ProtocolError::InvalidLength);
}

#[test]
fn rejects_unknown_bytes() {
    assert_eq!(decode_err(&[0xc1]), ProtocolError::UnexpectedByte(0xc1));
}

#[test]
fn a_one_byte_string_header_at_the_end_is_refused_before_reading() {
    assert!(MsgPack::deserialize_checked(&[0xd9]).is_none());
    assert!(MsgPack::deserialize_checked(&[0x91, 0xd9]).is_none());
    assert!(MsgPack::deserialize_checked(&[0xc0]).is_some());
}

#[test]
fn decodes_arrays_and_maps() {
    let v = decode(&[0x93, 0x01, 0xa1, b'x', 0xc0]);
    let items = v.as_array().unwrap();
    assert_eq!(items.len(), 3);
    assert_eq!(items[0].as_integer(), Some(1));
    assert_eq!(items[1].as_str(), Some("x"));
    assert!(items[2].is_nil());

    let m = decode(&[0x82, 0xa1, b'a', 0x01, 0xa1, b'b', 0xc3]);
    let entries = m.as_map().unwrap();
    assert_eq!(entries.len(), 2);
    assert_eq!(entries[0].0, "a");
    assert_eq!(entries[1].1.as_bool(), Some(true));
}

#[test]
fn a_repeated_map_key_keeps_the_last_value() {
    let m = decode(&[0x82, 0xa1, b'a', 0x01, 0xa1, b'a', 0x02]);
    let entries = m.take_map().unwrap();
    assert_eq!(entries.len(), 1);
    assert_eq!(entries[0].1.as_integer(), Some(2));
}

#[test]
fn map_keys_must_be_strings() {
    assert_eq!(decode_err(&[0x81, 0x01, 0x02]), ProtocolError::InvalidMapKey);
}

#[test]
fn take_accessors_hand_out_contents() {
    assert_eq!(decode(&[0xa2, b'o', b'k']).take_string().as_deref(), Some("ok"));
    assert!(decode(&[0x01]).take_string().is_none());
    assert_eq!(decode(&[0x90]).take_array().map(|a| a.len()), Some(0));
    assert_eq!(decode(&[0x80]).take_map().map(|m| m.len()), Some(0));
    assert!(Value::Binary(vec![1, 2]).as_bytes() == Some(&[1u8, 2][..]));
    assert_eq!(Value::Binary(vec![3]).take_bytes(), Some(vec![3]));
}

#[test]
fn writes_a_status_update() {
    let bytes = MsgPack::serialize(&StatusUpdateEvent::connecting()).unwrap();
    let mut expected = vec![0x81, 0xa4];
    expected.extend_from_slice(b"type");
    expected.push(0xad);
    expected.extend_from_slice(b"status_update");
    expected.push(0xa4);
    expected.extend_from_slice(b"data");
    expected.push(0x81);
    expected.push(0xa6);
    expected.extend_from_slice(b"status");
    expected.push(0xaa);
    expected.extend_from_slice(b"connecting");
    assert_eq!(bytes, expected);
}

#[test]
fn a_written_message_reads_back_as_its_first_field() {
    let bytes = MsgPack::serialize(&LogEvent::new("hello".to_string(), LogLevel::Warn)).unwrap();
    let v = MsgPack::deserialize(&bytes).unwrap();
    let entries = v.take_map().unwrap();
    assert_eq!(entries.len(), 1);
    assert_eq!(entries[0].0, "type");
    assert_eq!(entries[0].1.as_str(), Some("log"));
}

