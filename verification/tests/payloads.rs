use booking_broker::json::{get_field, parse_json_object, render_json_object};
use booking_broker::msg::{booking_json_of, notify_json_of, BookingData, NotifyData};
use booking_broker::strutil::{str_lex_le, u64_to_string};

fn fields(pairs: &[(&str, &str)]) -> Vec<(String, String)> {
    pairs.iter().map(|(k, v)| (k.to_string(), v.to_string())).collect()
}

#[test]
fn render_produces_compact_json() {
    let obj = fields(&[("date", "2026-01-15"), ("name", "Alice")]);
    assert_eq!(render_json_object(&obj), r#"{"date":"2026-01-15","name":"Alice"}"#);
    assert_eq!(render_json_object(&fields(&[])), "{}");
}

#[test]
fn render_escapes_special_characters() {
    let obj = fields(&[("note", "say \"hi\"\\\n\t")]);
    assert_eq!(render_json_object(&obj), "{\"note\":\"say \\\"hi\\\"\\\\\\n\\t\"}");
    let obj = fields(&[("ctl", "\u{01}")]);
    assert_eq!(render_json_object(&obj), "{\"ctl\":\"\\u0001\"}");
}

#[test]
fn parse_inverts_render() {
    let obj = fields(&[
        ("plain", "value"),
        ("quoted", "a \"b\" c"),
        ("slashed", "a\\b"),
        ("lines", "x\ny\r\tz"),
        ("control", "\u{01}\u{1f}"),
        ("empty", ""),
    ]);
    let rendered = render_json_object(&obj);
    let parsed = parse_json_object(&rendered).unwrap();
    assert_eq!(parsed, obj);

    let empty = parse_json_object("{}").unwrap();
    assert!(empty.is_empty());
}

#[test]
fn parse_refuses_malformed_objects() {
    assert!(parse_json_object("").is_none());
    assert!(parse_json_object("not json").is_none());
    assert!(parse_json_object("{\"open\":\"value\"").is_none());
    assert!(parse_json_object("{\"a\":\"b\"}trailing").is_none());
    assert!(parse_json_object("{\"a\":1}").is_none());
}

#[test]
fn get_field_finds_first_match() {
    let obj = fields(&[("a", "1"), ("b", "2"), ("a", "3")]);
    assert_eq!(get_field(&obj, "a").as_deref(), Some("1"));
    assert_eq!(get_field(&obj, "b").as_deref(), Some("2"));
    assert!(get_field(&obj, "c").is_none());
}

#[test]
fn payload_renderings_match_wire_schema() {
    let booking = BookingData {
        date: "2026-01-15".to_string(),
        start_time: "10:00".to_string(),
        end_time: "11:00".to_string(),
        name: "Test User".to_string(),
    };
    assert_eq!(
        booking_json_of(&booking),
        r#"{"date":"2026-01-15","start_time":"10:00","end_time":"11:00","name":"Test User"}"#
    );

    let notify = NotifyData {
        email: "test@example.com".to_string(),
        locale: Some("en".to_string()),
        timezone: None,
    };
    assert_eq!(notify_json_of(&notify), r#"{"email":"test@example.com","locale":"en"}"#);
    let bare = NotifyData { email: "a@x.io".to_string(), locale: None, timezone: None };
    assert_eq!(notify_json_of(&bare), r#"{"email":"a@x.io"}"#);
}

#[test]
fn decimal_rendering_is_exact() {
    assert_eq!(u64_to_string(0), "0");
    assert_eq!(u64_to_string(7), "7");
    assert_eq!(u64_to_string(422), "422");
    assert_eq!(u64_to_string(18446744073709551615), "18446744073709551615");
}

#[test]
fn lexicographic_order_on_strings() {
    assert!(str_lex_le("", "a"));
    assert!(str_lex_le("a", "a"));
    assert!(str_lex_le("a", "ab"));
    assert!(str_lex_le("ab", "b"));
    assert!(!str_lex_le("b", "ab"));
    assert!(!str_lex_le("ab", "a"));
}
