use lib::error::CordError;
use lib::presence::activity::{
    Activity, ActivityAssets, ActivityButton, ActivityTimestamps, ActivityType, StatusDisplayType,
};
use lib::presence::packet::Packet;
use lib::protocol::error::ProtocolError;
use lib::protocol::json::number::push_number;
use lib::protocol::json::serialize::{push_escaped, write_value};
use lib::protocol::json::value::{Value, ValueRef};
use lib::protocol::json::Json;

fn number(n: u64) -> String {
    let mut s = String::new();
    push_number(&mut s, n);
    s
}

fn activity() -> Activity {
    Activity {
        ty: ActivityType::Playing,
        status_display_type: StatusDisplayType::Name,
        details: Some("Editing main.rs".to_string()),
        details_url: None,
        state: Some("Workspace: cord".to_string()),
        state_url: None,
        assets: Some(ActivityAssets {
            large_image: Some("https://x/rust.png".to_string()),
            large_text: Some("Rust".to_string()),
            large_url: None,
            small_image: None,
            small_text: None,
            small_url: None,
        }),
        timestamps: Some(ActivityTimestamps { start: Some(1700000000), end: None }),
        buttons: vec![ActivityButton { label: "Repo".to_string(), url: "https://g".to_string() }],
        is_idle: false,
    }
}

#[test]
fn numbers_print_like_doubles() {
    let samples: [u64; 16] = [
        0,
        7,
        10,
        1700000000,
        (1 << 53) - 1,
        1 << 53,
        (1 << 53) + 1,
        (1 << 53) + 3,
        (1 << 54) + 2,
        12345678901234567890,
        u64::MAX,
        u64::MAX - 1024,
        1 << 63,
        (1 << 63) + 1024,
        9_999_999_999_999_999_999,
        10_000_000_000_000_000_000,
    ];
    for n in samples {
        assert_eq!(number(n), format!("{}", n as f64), "{}", n);
    }
}

#[test]
fn numbers_print_like_doubles_over_a_range() {
    let mut n: u64 = 1;
    for _ in 0..2000 {
        assert_eq!(number(n), format!("{}", n as f64), "{}", n);
        n = n.wrapping_mul(6364136223846793005).wrapping_add(1442695040888963407) >> (n % 40);
    }
}

#[test]
fn escapes_strings() {
    let mut s = String::new();
    push_escaped(&mut s, "a\"b\\c\nd\re\tf\u{1}g\u{7f}h\u{9f}é");
    assert_eq!(s, "a\\\"b\\\\c\\nd\\re\\tf\\u0001g\\u007fh\\u009fé");
}

#[test]
fn writes_values() {
    let mut s = String::new();
    write_value(
        &ValueRef::Object(vec![
            ("a".to_string(), ValueRef::Boolean(true)),
            ("b".to_string(), ValueRef::Null),
            ("c".to_string(), ValueRef::Array(vec![ValueRef::String("x".to_string()), ValueRef::Number(12)])),
        ]),
        &mut s,
    );
    assert_eq!(s, "{\"a\":true,\"b\":null,\"c\":[\"x\",12]}");
}

#[test]
fn no_comma_follows_a_single_digit_first_element() {
    let mut s = String::new();
    write_value(
        &ValueRef::Array(vec![ValueRef::Number(5), ValueRef::Number(6), ValueRef::Number(7)]),
        &mut s,
    );
    assert_eq!(s, "[56,7]");
}

#[test]
fn writes_a_packet() {
    let a = activity();
    let s = Json::serialize(&Packet::new(42, Some(&a))).unwrap();
    assert_eq!(
        s,
        "{\"cmd\":\"SET_ACTIVITY\",\"args\":{\"pid\":42,\"activity\":{\"type\":0,\"status_display_type\":0,\"details\":\"Editing main.rs\",\"state\":\"Workspace: cord\",\"assets\":{\"large_image\":\"https://x/rust.png\",\"large_text\":\"Rust\"},\"timestamps\":{\"start\":1700000000},\"buttons\":[{\"label\":\"Repo\",\"url\":\"https://g\"}]}},\"nonce\":\"-\"}"
    );
}

#[test]
fn writes_an_empty_packet() {
    let s = Json::serialize(&Packet::empty()).unwrap();
    assert_eq!(s, "{\"cmd\":\"SET_ACTIVITY\",\"args\":{\"pid\":0},\"nonce\":\"-\"}");
}

fn parse(s: &str) -> Vec<(String, Value)> {
    Json::deserialize(s).expect("parses")
}

fn parse_err(s: &str) -> ProtocolError {
    match Json::deserialize(s) {
        Err(CordError::Protocol(e)) => e,
        other => panic!("expected an error, got {:?}", other),
    }
}

#[test]
fn reads_objects() {
    let m = parse("  {\"a\": 1, \"b\" : [true, false, null], \"c\": {\"d\": \"e\\\"f\"}, \"n\": -1.5e+3}\n");
    assert_eq!(m.len(), 4);
    assert_eq!(m[0].0, "a");
    assert!(matches!(&m[0].1, Value::Number(n) if n == "1"));
    match &m[1].1 {
        Value::Array(items) => {
            assert_eq!(items.len(), 3);
            assert!(matches!(items[0], Value::Bool(true)));
            assert!(matches!(items[1], Value::Bool(false)));
            assert!(matches!(items[2], Value::Null));
        }
        other => panic!("{:?}", other),
    }
    match &m[2].1 {
        Value::Object(inner) => {
            assert_eq!(inner[0].0, "d");
            assert!(matches!(&inner[0].1, Value::String(s) if s == "e\\\"f"));
        }
        other => panic!("{:?}", other),
    }
    assert!(matches!(&m[3].1, Value::Number(n) if n == "-1.5e+3"));
}

#[test]
fn a_repeated_key_keeps_the_last_value() {
    let m = parse("{\"a\":1,\"a\":2}");
    assert_eq!(m.len(), 1);
    assert!(matches!(&m[0].1, Value::Number(n) if n == "2"));
}

#[test]
fn exponents_are_written_lower_case() {
    let m = parse("{\"x\":2E5}");
    assert!(matches!(&m[0].1, Value::Number(n) if n == "2e5"));
}

#[test]
fn an_empty_object_is_refused_at_its_closing_brace() {
    assert_eq!(parse_err("{}"), ProtocolError::UnexpectedChar('}'));
    assert_eq!(parse_err("{ }"), ProtocolError::UnexpectedChar('}'));
}

#[test]
fn refuses_what_is_not_an_object() {
    assert_eq!(parse_err(""), ProtocolError::InvalidSyntax("Invalid JSON object"));
    assert_eq!(parse_err("[1]"), ProtocolError::InvalidSyntax("Invalid JSON object"));
    assert_eq!(parse_err("{\"a\":1"), ProtocolError::InvalidSyntax("Invalid JSON object"));
}

#[test]
fn reports_malformed_input() {
    assert_eq!(parse_err("{\"a\" 1}"), ProtocolError::InvalidSyntax("Expected ':' after key"));
    assert_eq!(parse_err("{\"a\":tru}"), ProtocolError::InvalidSyntax("Invalid 'true' value"));
    assert_eq!(parse_err("{\"a\":fals}"), ProtocolError::InvalidSyntax("Invalid 'false' value"));
    assert_eq!(parse_err("{\"a\":nul}"), ProtocolError::InvalidSyntax("Invalid 'null' value"));
    assert_eq!(parse_err("{\"a\":1.2.3}"), ProtocolError::InvalidSyntax("Multiple decimal points"));
    assert_eq!(parse_err("{\"a\":1e}"), ProtocolError::InvalidSyntax("Invalid number format"));
    assert_eq!(parse_err("{\"a\":-}"), ProtocolError::InvalidSyntax("Invalid number format"));
    assert_eq!(parse_err("{\"a\":1x}"), ProtocolError::UnexpectedChar('x'));
    assert_eq!(parse_err("{\"a\":@}"), ProtocolError::UnexpectedChar('@'));
    assert_eq!(parse_err("{\"a\":é}"), ProtocolError::UnexpectedChar('\u{c3}'));
    assert_eq!(parse_err("{1:2}"), ProtocolError::UnexpectedChar('1'));
    assert_eq!(parse_err("{\"a\":1 \"b\":2}"), ProtocolError::UnexpectedChar('"'));
    assert_eq!(parse_err("{\"a\":[1 2]}"), ProtocolError::UnexpectedChar('2'));
    assert_eq!(parse_err("{\"a\":[,]}"), ProtocolError::UnexpectedChar(','));
    assert_eq!(parse_err("{\"a\":\"x}"), ProtocolError::UnexpectedEnd);
    assert_eq!(parse_err("{\"a\":}"), ProtocolError::UnexpectedChar('}'));
    assert_eq!(parse_err("{\"a\":[1}"), ProtocolError::UnexpectedChar('}'));
}

#[test]
fn numbers_of_every_float_shape_are_accepted() {
    for t in ["0", "12", "1.", "1.5", "0.25e3", "3e-2", "7E+1", "-0", "-2.5"] {
        let text = format!("{{\"n\":{}}}", t);
        let m = parse(&text);
        match &m[0].1 {
            Value::Number(n) => {
                assert_eq!(n.replace('e', "E"), t.replace('e', "E"));
                assert!(n.parse::<f64>().is_ok());
            }
            other => panic!("{:?}", other),
        }
    }
}
