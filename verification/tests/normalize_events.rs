use clickpipe_rs::model::RawEvent;
use clickpipe_rs::validate::normalize_event;
use serde_json::Value;

fn text_field(v: &Value, key: &str) -> Option<String> {
    match v.get(key) {
        None | Some(Value::Null) => None,
        Some(Value::String(s)) => Some(s.clone()),
        Some(other) => panic!("field {key} is not a string: {other}"),
    }
}

/// Reads one JSON object into a raw event, as the ingester's reader does.
fn raw_event_from_json(json: &str) -> RawEvent {
    let v: Value = serde_json::from_str(json).unwrap();
    RawEvent {
        event_id: text_field(&v, "event_id"),
        ts: text_field(&v, "ts"),
        source: text_field(&v, "source"),
        event_name: text_field(&v, "event_name"),
        user_id: v.get("user_id").and_then(|u| u.as_u64()),
        payload: match v.get("payload") {
            None | Some(Value::Null) => None,
            Some(p) => Some(p.to_string()),
        },
    }
}

fn payload_value(payload: &str) -> Value {
    serde_json::from_str(payload).unwrap()
}

#[test]
fn test_valid_login_event() {
    let json = r#"{
        "event_id": "e1",
        "ts": "2024-01-01T12:00:00Z",
        "source": "api",
        "event_name": "login",
        "user_id": 123,
        "payload": {"ip": "192.168.1.1"}
    }"#;

    let raw: RawEvent = raw_event_from_json(json);
    let normalized = normalize_event(raw).unwrap();

    assert_eq!(normalized.event_id, "e1");
    assert_eq!(normalized.ts, "2024-01-01T12:00:00Z");
    assert_eq!(normalized.user_id, Some(123u64));
}

#[test]
fn test_missing_event_id_fails() {
    let json = r#"{"event_name": "login", "ts": "2024-01-01"}"#;
    let raw: RawEvent = raw_event_from_json(json);

    assert!(matches!(
        normalize_event(raw),
        Err(clickpipe_rs::error::AppError::Validation(_))
    ));
}

#[test]
fn test_empty_string_event_id_fails() {
    let json = r#"{"event_id": "", "ts": "2024-01-01"}"#;
    let raw: RawEvent = raw_event_from_json(json);

    assert!(matches!(
        normalize_event(raw),
        Err(clickpipe_rs::error::AppError::Validation(_))
    ));
}

#[test]
fn test_missing_payload_substitutes_null() {
    let json = r#"{"event_id": "e1", "ts": "2024-01-01", "source": "api"}"#;
    let raw: RawEvent = raw_event_from_json(json);

    let normalized = normalize_event(raw).unwrap();

    assert!(payload_value(&normalized.payload).is_null());
}

#[test]
fn test_payload_without_missing_field() {
    let json = r#"{
        "event_id": "e2",
        "ts": "2024-01-01T12:00:00Z",
        "source": "api",
        "event_name": "click",
        "payload": {"button": "submit"}
    }"#;

    let raw: RawEvent = raw_event_from_json(json);
    let normalized = normalize_event(raw).unwrap();

    assert!(matches!(payload_value(&normalized.payload), serde_json::Value::Object(_)));
}
