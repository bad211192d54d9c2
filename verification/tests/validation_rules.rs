use std::collections::hash_map::DefaultHasher;
use std::hash::{Hash, Hasher};

use clickpipe_rs::error::AppError;
use clickpipe_rs::model::RawEvent;
use clickpipe_rs::validate::{normalize_event, simple_hash};

fn std_hash(s: &str) -> u64 {
    let mut hasher = DefaultHasher::new();
    s.hash(&mut hasher);
    hasher.finish()
}

fn raw(
    event_id: Option<&str>,
    ts: Option<&str>,
    source: Option<&str>,
    event_name: Option<&str>,
    user_id: Option<u64>,
    payload: Option<&str>,
) -> RawEvent {
    RawEvent {
        event_id: event_id.map(String::from),
        ts: ts.map(String::from),
        source: source.map(String::from),
        event_name: event_name.map(String::from),
        user_id,
        payload: payload.map(String::from),
    }
}

fn refusal(r: Result<clickpipe_rs::model::NormalizedEvent, AppError>) -> String {
    match r {
        Err(AppError::Validation(m)) => m,
        other => panic!("expected a validation error, got {:?}", other),
    }
}

#[test]
fn simple_hash_is_the_default_hasher_hash() {
    for s in ["", "abc", "e1|2024|api|login|Some(1)", "ünïcödé ✓"] {
        assert_eq!(simple_hash(s), std_hash(s));
    }
    assert_ne!(simple_hash("a"), simple_hash("b"));
}

#[test]
fn event_hash_covers_identifying_fields_with_user_id_as_debug() {
    let e = normalize_event(raw(Some("e1"), Some("t1"), Some("api"), Some("login"), Some(123), Some("{}")))
        .unwrap();
    assert_eq!(e.event_hash, std_hash("e1|t1|api|login|Some(123)"));
    let e = normalize_event(raw(Some("e1"), Some("t1"), Some("api"), Some("login"), None, None)).unwrap();
    assert_eq!(e.event_hash, std_hash("e1|t1|api|login|None"));
    let e = normalize_event(raw(Some("e1"), Some("t1"), Some("api"), Some("login"), Some(0), None)).unwrap();
    assert_eq!(e.event_hash, std_hash("e1|t1|api|login|Some(0)"));
    let e = normalize_event(raw(Some("e1"), Some("t1"), Some("api"), Some("login"), Some(u64::MAX), None))
        .unwrap();
    assert_eq!(e.event_hash, std_hash("e1|t1|api|login|Some(18446744073709551615)"));
}

#[test]
fn event_hash_ignores_payload() {
    let a = normalize_event(raw(Some("e1"), Some("t1"), Some("api"), Some("login"), Some(7), Some("{\"a\":1}")))
        .unwrap();
    let b = normalize_event(raw(Some("e1"), Some("t1"), Some("api"), Some("login"), Some(7), None)).unwrap();
    assert_eq!(a.event_hash, b.event_hash);
    let c = normalize_event(raw(Some("e2"), Some("t1"), Some("api"), Some("login"), Some(7), None)).unwrap();
    assert_ne!(a.event_hash, c.event_hash);
}

#[test]
fn fields_are_kept_untrimmed_and_payload_passes_through() {
    let e = normalize_event(raw(Some(" e1 "), Some("t1"), Some("api"), Some("login"), None, Some("[1,2]")))
        .unwrap();
    assert_eq!(e.event_id, " e1 ");
    assert_eq!(e.payload, "[1,2]");
    assert_eq!(e.user_id, None);
}

#[test]
fn first_refused_field_is_reported() {
    assert_eq!(refusal(normalize_event(raw(None, None, None, None, None, None))), "event_id is missing");
    assert_eq!(refusal(normalize_event(raw(Some("e"), None, None, None, None, None))), "ts is missing");
    assert_eq!(refusal(normalize_event(raw(Some("e"), Some("t"), None, None, None, None))), "source is missing");
    assert_eq!(
        refusal(normalize_event(raw(Some("e"), Some("t"), Some("s"), Some(" "), None, None))),
        "event_name is missing"
    );
}

#[test]
fn whitespace_only_fields_are_blank() {
    assert_eq!(refusal(normalize_event(raw(Some(" \t\n\r"), Some("t"), Some("s"), None, None, None))), "event_id is missing");
    assert_eq!(refusal(normalize_event(raw(Some("e"), Some("\u{3000}\u{a0}"), Some("s"), None, None, None))), "ts is missing");
    assert_eq!(refusal(normalize_event(raw(Some("e"), Some("t"), Some("\u{2028}\u{85}"), None, None, None))), "source is missing");
    // a zero-width space is not whitespace
    assert!(normalize_event(raw(Some("\u{200b}"), Some("t"), Some("s"), None, None, None)).is_ok());
}

#[test]
fn absent_event_name_is_empty() {
    let e = normalize_event(raw(Some("e1"), Some("t1"), Some("api"), None, None, None)).unwrap();
    assert_eq!(e.event_name, "");
    assert_eq!(e.payload, "null");
    assert_eq!(e.event_hash, std_hash("e1|t1|api||None"));
}

#[test]
fn renormalizing_changes_nothing() {
    let e = normalize_event(raw(Some("e1"), Some("t1"), Some("api"), Some("login"), Some(9), Some("{\"x\":true}")))
        .unwrap();
    let again = normalize_event(RawEvent {
        event_id: Some(e.event_id.clone()),
        ts: Some(e.ts.clone()),
        source: Some(e.source.clone()),
        event_name: Some(e.event_name.clone()),
        user_id: e.user_id,
        payload: Some(e.payload.clone()),
    })
    .unwrap();
    assert_eq!(format!("{:?}", e), format!("{:?}", again));
}

#[test]
fn error_messages_carry_their_label() {
    let err = normalize_event(raw(None, None, None, None, None, None)).unwrap_err();
    assert_eq!(err.message(), "validation error: event_id is missing");
    let json_err = serde_json::from_str::<serde_json::Value>("{").unwrap_err();
    let text = json_err.to_string();
    assert_eq!(AppError::Json(json_err).message(), format!("json parse error: {text}"));
    let io_err = std::io::Error::new(std::io::ErrorKind::NotFound, "no such file");
    assert_eq!(AppError::Io(io_err).message(), "io error: no such file");
}
