use std::collections::BTreeMap;

use datadog_archives::normalize::DatadogArchivesEncoding;
use datadog_archives::value::{LogEvent, Value};

/// check that _id is:
/// - 18 bytes,
/// - base64-encoded,
/// - first 6 bytes - a "now" timestamp in millis
fn validate_event_id(id: &str) {
    let bytes = base64::Engine::decode(&base64::prelude::BASE64_STANDARD, id)
        .expect("_id is not base64-encoded");
    assert_eq!(bytes.len(), 18);
    let mut timestamp: [u8; 8] = [0; 8];
    for (i, b) in bytes[..6].iter().enumerate() {
        timestamp[i + 2] = *b;
    }
    let timestamp = i64::from_be_bytes(timestamp);
    assert!(chrono::Utc::now().timestamp_millis() - timestamp < 1000);
}

fn now_millis() -> u64 {
    chrono::Utc::now().timestamp_millis() as u64
}

fn parse_line(payload: &str) -> BTreeMap<String, serde_json::Value> {
    let line = payload.lines().next().expect("empty payload");
    serde_json::from_str(line).expect("line is not valid JSON")
}

#[test]
fn encodes_event() {
    let mut event = LogEvent::from_message("test message".to_string(), 1);
    event.insert(
        "service".to_string(),
        Value::Str("test-service".to_string()),
    );
    event.insert(
        "not_a_reserved_attribute".to_string(),
        Value::Str("value".to_string()),
    );
    event.insert(
        "tags".to_string(),
        Value::Arr(vec![
            Value::Str("tag1:value1".to_string()),
            Value::Str("tag2:value2".to_string()),
        ]),
    );
    let timestamp = chrono::DateTime::parse_from_rfc3339("2021-08-23T18:00:27.879+02:00")
        .expect("invalid test case")
        .timestamp_millis();
    event.insert("timestamp".to_string(), Value::Timestamp(timestamp));

    let mut encoding = DatadogArchivesEncoding::new();
    let payload = encoding.encode_input(vec![event], now_millis());
    let json = parse_line(&payload);

    validate_event_id(
        json.get("_id")
            .expect("_id not found")
            .as_str()
            .expect("_id is not a string"),
    );

    assert_eq!(json.len(), 6); // _id, message, date, service, tags, attributes
    assert_eq!(
        json.get("message")
            .expect("message not found")
            .as_str()
            .expect("message is not a string"),
        "test message"
    );
    assert_eq!(
        json.get("date")
            .expect("date not found")
            .as_str()
            .expect("date is not a string"),
        "2021-08-23T16:00:27.879Z"
    );
    assert_eq!(
        json.get("service")
            .expect("service not found")
            .as_str()
            .expect("service is not a string"),
        "test-service"
    );
    assert_eq!(
        json.get("tags")
            .expect("tags not found")
            .as_array()
            .expect("service is not an array")
            .to_owned(),
        vec!["tag1:value1", "tag2:value2"]
    );

    let attributes = json
        .get("attributes")
        .expect("attributes not found")
        .as_object()
        .expect("attributes is not an object");
    assert_eq!(attributes.len(), 1);
    assert_eq!(
        String::from_utf8_lossy(
            attributes
                .get("not_a_reserved_attribute")
                .expect("not_a_reserved_attribute wasn't moved to attributes")
                .as_str()
                .expect("not_a_reserved_attribute is not a string")
                .as_ref()
        ),
        "value"
    );
}

#[test]
fn generates_valid_id() {
    let log1 = LogEvent::from_message("test event 1".to_string(), 1);
    let mut encoding = DatadogArchivesEncoding::new();
    let payload = encoding.encode_input(vec![log1], now_millis());
    let json = parse_line(&payload);
    let id1 = json
        .get("_id")
        .expect("_id not found")
        .as_str()
        .expect("_id is not a string");
    validate_event_id(id1);

    // check that id is different for the next event
    let log2 = LogEvent::from_message("test event 2".to_string(), 2);
    let payload = encoding.encode_input(vec![log2], now_millis());
    let json2 = parse_line(&payload);
    let id2 = json2
        .get("_id")
        .expect("_id not found")
        .as_str()
        .expect("_id is not a string");
    validate_event_id(id2);
    assert_ne!(id1, id2)
}

#[test]
fn generates_date_if_missing() {
    let log = LogEvent::from_message("test message".to_string(), 1);
    let mut encoding = DatadogArchivesEncoding::new();
    let payload = encoding.encode_input(vec![log], now_millis());
    let json = parse_line(&payload);

    let date = chrono::DateTime::parse_from_rfc3339(
        json.get("date")
            .expect("date not found")
            .as_str()
            .expect("date is not a string"),
    )
    .expect("date is not in an rfc3339 format");

    // check that it is a recent timestamp
    assert!(chrono::Utc::now().timestamp() - date.timestamp() < 1000);
}

#[test]
fn escapes_strings_in_payload() {
    let mut event = LogEvent::from_message("a \"quoted\" \\ back\nslash".to_string(), 1);
    event.insert(
        "custom".to_string(),
        Value::Str("tab\there".to_string()),
    );
    let mut encoding = DatadogArchivesEncoding::new();
    let payload = encoding.encode_input(vec![event], now_millis());
    let json = parse_line(&payload);
    assert_eq!(
        json.get("message").unwrap().as_str().unwrap(),
        "a \"quoted\" \\ back\nslash"
    );
    let attributes = json.get("attributes").unwrap().as_object().unwrap();
    assert_eq!(attributes.get("custom").unwrap().as_str().unwrap(), "tab\there");
}

#[test]
fn renames_host_and_keeps_values() {
    let mut event = LogEvent::new(9);
    event.insert("source_host".to_string(), Value::Str("web-1".to_string()));
    event.insert("level".to_string(), Value::Int(3));
    event.insert("flag".to_string(), Value::Bool(true));
    event.host_key = Some("source_host".to_string());
    let mut encoding = DatadogArchivesEncoding::new();
    let payload = encoding.encode_input(vec![event], now_millis());
    let json = parse_line(&payload);
    assert_eq!(json.get("host").unwrap().as_str().unwrap(), "web-1");
    let attributes = json.get("attributes").unwrap().as_object().unwrap();
    assert_eq!(attributes.len(), 2);
    assert_eq!(attributes.get("level").unwrap().as_i64().unwrap(), 3);
    assert_eq!(attributes.get("flag").unwrap().as_bool().unwrap(), true);
    assert!(json.get("source_host").is_none());
}

#[test]
fn one_line_per_event() {
    let mut encoding = DatadogArchivesEncoding::new();
    let events = vec![
        LogEvent::from_message("first".to_string(), 1),
        LogEvent::from_message("second".to_string(), 2),
        LogEvent::from_message("third".to_string(), 3),
    ];
    let payload = encoding.encode_input(events, now_millis());
    let lines: Vec<&str> = payload.lines().collect();
    assert_eq!(lines.len(), 3);
    assert!(payload.ends_with('\n'));
    for line in lines {
        let json: BTreeMap<String, serde_json::Value> =
            serde_json::from_str(line).expect("line is not valid JSON");
        assert!(json.contains_key("_id"));
        assert!(json.contains_key("date"));
        assert!(json.contains_key("attributes"));
    }
}

#[test]
fn renders_nested_and_numeric_values() {
    let mut event = LogEvent::new(4);
    event.insert("neg".to_string(), Value::Int(-42));
    event.insert("min".to_string(), Value::Int(i64::MIN));
    event.insert("nothing".to_string(), Value::Null);
    event.insert(
        "nested".to_string(),
        Value::Obj(vec![(
            "inner".to_string(),
            Value::Arr(vec![Value::Int(1), Value::Str("two".to_string())]),
        )]),
    );
    let when = chrono::DateTime::parse_from_rfc3339("2021-08-23T16:00:27.879+00:00")
        .expect("invalid test case")
        .timestamp_millis();
    event.insert("seen_at".to_string(), Value::Timestamp(when));
    let mut encoding = DatadogArchivesEncoding::new();
    let payload = encoding.encode_input(vec![event], now_millis());
    let json = parse_line(&payload);
    let attributes = json.get("attributes").unwrap().as_object().unwrap();
    assert_eq!(attributes.get("neg").unwrap().as_i64().unwrap(), -42);
    assert_eq!(attributes.get("min").unwrap().as_i64().unwrap(), i64::MIN);
    assert!(attributes.get("nothing").unwrap().is_null());
    let nested = attributes.get("nested").unwrap().as_object().unwrap();
    let inner = nested.get("inner").unwrap().as_array().unwrap();
    assert_eq!(inner[0].as_i64().unwrap(), 1);
    assert_eq!(inner[1].as_str().unwrap(), "two");
    assert_eq!(
        attributes.get("seen_at").unwrap().as_str().unwrap(),
        "2021-08-23T16:00:27.879Z"
    );
}
