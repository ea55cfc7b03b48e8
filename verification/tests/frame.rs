use lib::error::CordError;
use lib::protocol::msgpack::deserialize::Stop;
use lib::protocol::msgpack::serialize::SerializeState;
use lib::protocol::msgpack::value::{Value, ValueRef};
use lib::protocol::msgpack::MsgPack;
use lib::rpc::frame::{
    classify_reply, decode_header, decode_message_length, encode_frame, encode_message_frame,
    Reply, OP_CLOSE, OP_FRAME, OP_HANDSHAKE,
};

#[test]
fn discord_frames_carry_opcode_and_length_little_endian() {
    let f = encode_frame(OP_FRAME, b"{}").unwrap();
    assert_eq!(f, vec![1, 0, 0, 0, 2, 0, 0, 0, b'{', b'}']);
    let f = encode_frame(0x0102_0304, &[9; 300]).unwrap();
    assert_eq!(&f[..8], &[4, 3, 2, 1, 44, 1, 0, 0]);
    assert_eq!(f.len(), 308);
    assert_eq!(decode_header(&f), Some((0x0102_0304, 300)));
    assert_eq!(decode_header(&[1, 2, 3]), None);
    assert_eq!(OP_HANDSHAKE, 0);
}

#[test]
fn editor_frames_carry_the_length_little_endian() {
    let f = encode_message_frame(&[0x81, 0xc0]).unwrap();
    assert_eq!(f, vec![2, 0, 0, 0, 0x81, 0xc0]);
    assert_eq!(decode_message_length(&f), Some(2));
    assert_eq!(decode_message_length(&[1]), None);
}

#[test]
fn replies_are_told_apart() {
    assert_eq!(classify_reply(OP_CLOSE, "{\"evt\":\"READY\"}"), Reply::Closed);
    assert_eq!(classify_reply(OP_FRAME, "{\"cmd\":\"DISPATCH\",\"evt\":\"READY\"}"), Reply::Ready);
    assert_eq!(classify_reply(OP_FRAME, "{\"evt\":\"ERROR\",\"data\":{\"code\":4000}}"), Reply::Error);
    assert_eq!(classify_reply(OP_FRAME, "{\"evt\":null}"), Reply::Other);
    assert_eq!(classify_reply(OP_FRAME, "{\"cmd\":\"SET_ACTIVITY\"}"), Reply::Other);
    assert_eq!(classify_reply(OP_FRAME, "not json"), Reply::Other);
}

#[test]
fn a_written_value_reads_back() {
    let v = ValueRef::Array(vec![
        ValueRef::Nil,
        ValueRef::Boolean(true),
        ValueRef::Integer(-300),
        ValueRef::UInteger(70000),
        ValueRef::String("hi".to_string()),
    ]);
    let mut s = SerializeState::new();
    assert!(MsgPack::write_value(&v, &mut s).is_ok());
    let mut pos = 0usize;
    match MsgPack::parse_value(&s.buf, &mut pos) {
        Ok(Value::Array(items)) => {
            assert_eq!(items.len(), 5);
            assert!(matches!(items[0], Value::Nil));
            assert!(matches!(items[1], Value::Boolean(true)));
            assert!(matches!(items[2], Value::Integer(-300)));
            assert!(matches!(items[3], Value::UInteger(70000)));
            assert!(matches!(&items[4], Value::String(x) if x == "hi"));
        }
        Ok(other) => panic!("unexpected {:?}", other),
        Err(Stop::Error(e)) => panic!("unexpected {:?}", e),
        Err(Stop::Abort) => panic!("aborted"),
    }
    assert_eq!(pos, s.buf.len());
}

#[test]
fn input_output_errors_keep_their_text() {
    assert_eq!(CordError::Io("Failed to connect to Discord".to_string()).message(), "Failed to connect to Discord");
}
