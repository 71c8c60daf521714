use sap_odata::error::ServiceError;
use sap_odata::payload::{parse_payload, payload_from_parsed, Member, Payload};
use serde_json::Value;

fn member(key: &str, value: Value) -> Member {
    Member { key: key.to_string(), value }
}

fn numbers() -> Value {
    Value::Array(vec![Value::from(1), Value::from(2), Value::from(3)])
}

#[test]
fn parse_payload_reads_an_object() {
    let payload = parse_payload(br#"{"value": [1,2,3], "other": "x"}"#).unwrap();
    assert!(payload.contains_key("value"));
    assert!(payload.contains_key("other"));
    assert!(!payload.contains_key("missing"));
    assert_eq!(payload.get("value"), Some(&numbers()));
    assert_eq!(payload.get("other"), Some(&Value::String("x".to_string())));
    assert_eq!(payload.get("missing"), None);
}

#[test]
fn parse_payload_reads_the_empty_object() {
    let payload = parse_payload(b" {} ").unwrap();
    assert!(!payload.contains_key("value"));
    assert_eq!(payload, Payload::from_members(vec![]));
}

#[test]
fn parse_payload_refuses_what_is_not_json() {
    assert_eq!(parse_payload(b"<html>busy</html>"), Err(ServiceError::ResponseFormat));
    assert_eq!(parse_payload(b""), Err(ServiceError::ResponseFormat));
    assert_eq!(parse_payload(b"{\"value\": [1,2"), Err(ServiceError::ResponseFormat));
    assert_eq!(parse_payload(b"{\"value\": 1} trailing"), Err(ServiceError::ResponseFormat));
    assert_eq!(
        parse_payload(&[0x7b, 0x22, 0xff, 0x22, 0x3a, 0x31, 0x7d]),
        Err(ServiceError::ResponseFormat)
    );
}

#[test]
fn parse_payload_refuses_json_that_is_no_object() {
    assert_eq!(parse_payload(b"[1,2,3]"), Err(ServiceError::ResponseFormat));
    assert_eq!(parse_payload(b"\"text\""), Err(ServiceError::ResponseFormat));
    assert_eq!(parse_payload(b"42"), Err(ServiceError::ResponseFormat));
    assert_eq!(parse_payload(b"true"), Err(ServiceError::ResponseFormat));
    assert_eq!(parse_payload(b"null"), Err(ServiceError::ResponseFormat));
}

#[test]
fn parse_payload_keeps_the_last_of_a_repeated_key() {
    let payload = parse_payload(br#"{"a": 1, "a": 2}"#).unwrap();
    assert_eq!(payload.get("a"), Some(&Value::from(2)));
}

#[test]
fn render_writes_compact_json() {
    let payload = parse_payload(
        br#"{ "value" : { "b" : [ true , null , 1.5 , "x\"y" ] , "a" : -7 }, "n": 10 }"#,
    ).unwrap();
    assert_eq!(payload.render("value"), Some(r#"{"a":-7,"b":[true,null,1.5,"x\"y"]}"#.to_string()));
    assert_eq!(payload.render("n"), Some("10".to_string()));
    assert_eq!(payload.render("b"), None);
}

#[test]
fn render_differs_from_the_body() {
    let body = br#"{"value": "text"}"#;
    let payload = parse_payload(body).unwrap();
    assert_eq!(payload.render("value"), Some("\"text\"".to_string()));
}

#[test]
fn from_members_finds_each_key() {
    let payload = Payload::from_members(vec![
        member("value", numbers()),
        member("other", Value::String("x".to_string())),
    ]);
    assert_eq!(payload.get("value"), Some(&numbers()));
    assert_eq!(payload.render("other"), Some("\"x\"".to_string()));
    assert!(!payload.contains_key("Value"));
    assert!(!payload.contains_key(""));
}

#[test]
fn from_members_lets_the_last_occurrence_count() {
    let payload = Payload::from_members(vec![
        member("k", Value::from(1)),
        member("other", Value::Null),
        member("k", Value::from(2)),
    ]);
    assert_eq!(payload.get("k"), Some(&Value::from(2)));
    assert_eq!(payload.render("k"), Some("2".to_string()));
}

#[test]
fn payloads_are_equal_whatever_the_order() {
    let one =
        Payload::from_members(vec![member("a", Value::from(1)), member("b", Value::Bool(true))]);
    let other =
        Payload::from_members(vec![member("b", Value::Bool(true)), member("a", Value::from(1))]);
    assert_eq!(one, other);
    assert!(one.included_in(&other));
    let shadowed = Payload::from_members(vec![
        member("a", Value::from(0)),
        member("b", Value::Bool(true)),
        member("a", Value::from(1)),
    ]);
    assert_eq!(one, shadowed);
}

#[test]
fn payloads_differ_by_key_or_value() {
    let one = Payload::from_members(vec![member("a", Value::from(1))]);
    let more = Payload::from_members(vec![member("a", Value::from(1)), member("b", Value::Null)]);
    let changed = Payload::from_members(vec![member("a", Value::from(2))]);
    assert_ne!(one, more);
    assert_ne!(more, one);
    assert_ne!(one, changed);
    assert!(one.included_in(&more));
    assert!(!more.included_in(&one));
    assert!(!one.included_in(&changed));
}

#[test]
fn payload_from_parsed_maps_both_cases() {
    let parsed = payload_from_parsed(Ok(vec![member("value", numbers())])).unwrap();
    assert_eq!(parsed.get("value"), Some(&numbers()));
    let error = serde_json::from_str::<Value>("not json").unwrap_err();
    assert_eq!(payload_from_parsed(Err(error)), Err(ServiceError::ResponseFormat));
}

#[test]
fn error_messages_name_the_kind() {
    assert_eq!(
        ServiceError::Configuration.message(),
        "configuration error: the request cannot be formed"
    );
    assert_eq!(ServiceError::Transport.message(), "transport error: no complete response arrived");
    assert_eq!(
        ServiceError::ResponseFormat.message(),
        "response format error: the body is not a JSON object"
    );
}
