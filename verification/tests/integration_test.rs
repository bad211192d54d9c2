use clickpipe_rs::error::AppError;
use clickpipe_rs::model::RawEvent;
use clickpipe_rs::validate::normalize_event;
use serde_json::Value;

fn text_field(v: &Value, key: &str) -> Option<String> {
    match v.get(key) {
        None | Some(Value::Null) => None,
        Some(Value::String(s)) => Some(s.clone()),
        Some(other) => panic!("field {key} is not a string: {other}"),
    }
}

/// Reads one JSON object into a raw event, as the ingester's reader does.
fn raw_event_from_json(json: &str) -> RawEvent {
    let v: Value = serde_json::from_str(json).unwrap();
    RawEvent {
        event_id: text_field(&v, "event_id"),
        ts: text_field(&v, "ts"),
        source: text_field(&v, "source"),
        event_name: text_field(&v, "event_name"),
        user_id: v.get("user_id").and_then(|u| u.as_u64()),
        payload: match v.get("payload") {
            None | Some(Value::Null) => None,
            Some(p) => Some(p.to_string()),
        },
    }
}

#[test]
fn test_raw_event_deserialization() {
    let json = r#"{
        "event_id": "e1",
        "ts": "2024-01-01T00:00:00Z",
        "source": "api",
        "event_name": "login",
        "payload": {"user_agent": "curl"}
    }"#;

    let raw: RawEvent = raw_event_from_json(json);

    assert_eq!(raw.event_id, Some("e1".to_string()));
    assert_eq!(raw.ts, Some("2024-01-01T00:00:00Z".to_string()));
    assert!(raw.payload.is_some());
}

#[test]
fn test_invalid_event_handling() {
    let json = r#"{
        "event_id": "",
        "ts": "2024-01-01T00:00:00Z",
        "source": "api",
        "event_name": "login",
        "payload": {"user_agent": "curl"}
    }"#;

    let raw: RawEvent = raw_event_from_json(json);

    let result = normalize_event(raw);

    match result {
        Err(AppError::Validation(message)) => {
            assert_eq!(message, "event_id is missing");
        }
        Ok(event) => {
            panic!("Expected validation error, but got Ok: {:?}", event);
        }
        Err(error) => {
            panic!("Expected AppError::Validation, but got: {:?}", error);
        }
    }

    let json = r#"{
        "event_id": "e1",
        "ts": "",
        "source": "api",
        "event_name": "login",
        "payload": {"user_agent": "curl"}
    }"#;

    let raw: RawEvent = raw_event_from_json(json);

    let result = normalize_event(raw);

    match result {
        Err(AppError::Validation(message)) => {
            assert_eq!(message, "ts is missing");
        }
        Ok(event) => {
            panic!("Expected validation error, but got Ok: {:?}", event);
        }
        Err(error) => {
            panic!("Expected AppError::Validation, but got: {:?}", error);
        }
    }

    let json = r#"{
        "event_id": "e1",
        "ts": "2024-01-01T00:00:00Z",
        "source": "",
        "event_name": "login",
        "payload": {"user_agent": "curl"}
    }"#;

    let raw: RawEvent = raw_event_from_json(json);

    let result = normalize_event(raw);

    match result {
        Err(AppError::Validation(message)) => {
            assert_eq!(message, "source is missing");
        }
        Ok(event) => {
            panic!("Expected validation error, but got Ok: {:?}", event);
        }
        Err(error) => {
            panic!("Expected AppError::Validation, but got: {:?}", error);
        }
    }

    let json = r#"{
        "event_id": "e1",
        "ts": "2024-01-01T00:00:00Z",
        "source": "api",
        "event_name": "",
        "payload": {"user_agent": "curl"}
    }"#;

    let raw: RawEvent = raw_event_from_json(json);

    let result = normalize_event(raw);

    match result {
        Err(AppError::Validation(message)) => {
            assert_eq!(message, "event_name is missing");
        }
        Ok(event) => {
            panic!("Expected validation error, but got Ok: {:?}", event);
        }
        Err(error) => {
            panic!("Expected AppError::Validation, but got: {:?}", error);
        }
    }
}
