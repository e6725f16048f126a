//! JSON serialization and parsing.

use appwrite::JsonValue;

#[test]
fn scalars_serialize_exactly() {
    assert_eq!(JsonValue::Null.to_json_string(), "null");
    assert_eq!(JsonValue::Bool(true).to_json_string(), "true");
    assert_eq!(JsonValue::Bool(false).to_json_string(), "false");
    assert_eq!(JsonValue::Int(0).to_json_string(), "0");
    assert_eq!(JsonValue::Int(-42).to_json_string(), "-42");
    assert_eq!(JsonValue::Int(i64::MIN).to_json_string(), "-9223372036854775808");
    assert_eq!(JsonValue::Int(i64::MAX).to_json_string(), "9223372036854775807");
}

#[test]
fn strings_are_escaped() {
    let v = JsonValue::Str("a\"b\\c\nd".to_string());
    assert_eq!(v.to_json_string(), r#""a\"b\\c\nd""#);
    let ctrl = JsonValue::Str("\u{1}".to_string());
    assert_eq!(ctrl.to_json_string(), r#""\u0001""#);
}

#[test]
fn arrays_and_objects_serialize_exactly() {
    let v = JsonValue::Arr(vec![JsonValue::Int(1), JsonValue::Str("x".to_string())]);
    assert_eq!(v.to_json_string(), r#"[1,"x"]"#);
    let o = JsonValue::Obj(vec![
        ("a".to_string(), JsonValue::Int(1)),
        ("b".to_string(), JsonValue::Null),
    ]);
    assert_eq!(o.to_json_string(), r#"{"a":1,"b":null}"#);
    assert_eq!(JsonValue::Arr(vec![]).to_json_string(), "[]");
    assert_eq!(JsonValue::Obj(vec![]).to_json_string(), "{}");
}

#[test]
fn parse_accepts_whitespace_and_nesting() {
    let parsed = JsonValue::parse_json(" { \"a\" : [ 1 , true , null ] } ").unwrap();
    assert_eq!(parsed.to_json_string(), r#"{"a":[1,true,null]}"#);
}

#[test]
fn parse_decodes_escapes() {
    let parsed = JsonValue::parse_json(r#""aA\n\"""#).unwrap();
    match parsed {
        JsonValue::Str(s) => assert_eq!(s, "aA\n\""),
        _ => panic!("expected a string"),
    }
}

#[test]
fn parse_decodes_unicode_escapes() {
    let parsed = JsonValue::parse_json(r#""\u0041\u00e9""#).unwrap();
    match parsed {
        JsonValue::Str(s) => assert_eq!(s, "A\u{e9}"),
        _ => panic!("expected a string"),
    }
}

#[test]
fn parse_rejects_surrogate_escapes() {
    assert!(JsonValue::parse_json(r#""\ud800""#).is_none());
}

#[test]
fn parse_rejects_malformed_text() {
    assert!(JsonValue::parse_json("").is_none());
    assert!(JsonValue::parse_json("{").is_none());
    assert!(JsonValue::parse_json("[1,]").is_none());
    assert!(JsonValue::parse_json("nul").is_none());
    assert!(JsonValue::parse_json("1 2").is_none());
    assert!(JsonValue::parse_json("\"unterminated").is_none());
    assert!(JsonValue::parse_json("01").is_none());
}

#[test]
fn parse_rejects_what_the_model_cannot_hold() {
    assert!(JsonValue::parse_json("1.5").is_none());
    assert!(JsonValue::parse_json("1e3").is_none());
    assert!(JsonValue::parse_json("9223372036854775808").is_none());
}

#[test]
fn parse_round_trips_serialized_values() {
    let v = JsonValue::Obj(vec![
        ("k".to_string(), JsonValue::Arr(vec![JsonValue::Int(-7), JsonValue::Bool(false)])),
        ("s".to_string(), JsonValue::Str("line\nbreak".to_string())),
    ]);
    let text = v.to_json_string();
    let back = JsonValue::parse_json(&text).unwrap();
    assert_eq!(back.to_json_string(), text);
}

#[test]
fn parse_accepts_negative_bounds() {
    let parsed = JsonValue::parse_json("-9223372036854775808").unwrap();
    match parsed {
        JsonValue::Int(n) => assert_eq!(n, i64::MIN),
        _ => panic!("expected an integer"),
    }
}
