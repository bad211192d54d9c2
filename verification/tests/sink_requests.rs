use clickpipe_rs::config::Config;
use clickpipe_rs::model::{NormalizedEvent, RawEvent};
use clickpipe_rs::sink::{encode_row, frame_row, insert_request};
use clickpipe_rs::validate::normalize_event;
use serde_json::Value;

fn event(id: &str, user_id: Option<u64>, payload: Option<&str>) -> NormalizedEvent {
    normalize_event(RawEvent {
        event_id: Some(id.to_string()),
        ts: Some("2024-01-01T00:00:00Z".to_string()),
        source: Some("api".to_string()),
        event_name: Some("login".to_string()),
        user_id,
        payload: payload.map(String::from),
    })
    .unwrap()
}

#[test]
fn empty_batch_sends_nothing() {
    assert!(insert_request(&[], &Config::defaults()).is_none());
}

#[test]
fn default_request_targets_the_events_table() {
    let events = vec![event("e1", Some(1), None)];
    let req = insert_request(&events, &Config::defaults()).unwrap();
    assert_eq!(
        req.url,
        "http://localhost:8123/?query=INSERT%20INTO%20app.events%20FORMAT%20JSONEachRow"
    );
    let headers: Vec<(&str, &str)> =
        req.headers.iter().map(|(k, v)| (k.as_str(), v.as_str())).collect();
    assert_eq!(
        headers,
        vec![
            ("Content-Type", "text/plain"),
            ("X-ClickHouse-User", "app"),
            ("X-ClickHouse-Key", "app_password"),
        ]
    );
}

#[test]
fn body_has_one_json_line_per_event() {
    let events = vec![event("e1", Some(123), Some("{\"ip\":\"1.2.3.4\"}")), event("e\"2", None, None)];
    let req = insert_request(&events, &Config::defaults()).unwrap();
    let lines: Vec<&str> = req.body.split('\n').collect();
    assert_eq!(lines.len(), 2);
    let first: Value = serde_json::from_str(lines[0]).unwrap();
    assert_eq!(first["event_id"], "e1");
    assert_eq!(first["user_id"], 123);
    assert_eq!(first["payload"], "{\"ip\":\"1.2.3.4\"}");
    assert_eq!(first["event_hash"].as_u64(), Some(events[0].event_hash));
    let second: Value = serde_json::from_str(lines[1]).unwrap();
    assert_eq!(second["event_id"], "e\"2");
    assert!(second["user_id"].is_null());
    assert_eq!(second["payload"], "null");
}

#[test]
fn row_is_framed_in_column_order() {
    let e = event("e1", Some(5), Some("{}"));
    let line = encode_row(&e);
    assert_eq!(
        line,
        format!(
            "{{\"event_id\":\"e1\",\"ts\":\"2024-01-01T00:00:00Z\",\"source\":\"api\",\"event_name\":\"login\",\"user_id\":5,\"payload\":\"{{}}\",\"event_hash\":{}}}",
            e.event_hash
        )
    );
    assert_eq!(
        frame_row("\"a\"", "\"b\"", "\"c\"", "\"d\"", None, "\"null\"", 0),
        "{\"event_id\":\"a\",\"ts\":\"b\",\"source\":\"c\",\"event_name\":\"d\",\"user_id\":null,\"payload\":\"null\",\"event_hash\":0}"
    );
}

#[test]
fn strings_are_escaped_as_serde_json_does() {
    for text in ["plain", "quote \" and \\ backslash", "tab\tnl\ncr\rbs\u{8}ff\u{c}", "\u{1}\u{1f}\u{7f}", "ünï ✓ \u{2028}"] {
        let e = event(text, None, Some(text));
        let line = encode_row(&e);
        let expected_id = serde_json::to_string(text).unwrap();
        assert!(line.starts_with(&format!("{{\"event_id\":{expected_id},")));
        assert!(line.contains(&format!(",\"payload\":{expected_id},")));
        let parsed: Value = serde_json::from_str(&line).unwrap();
        assert_eq!(parsed["event_id"], text);
    }
    let e = event("\u{1}", None, None);
    assert!(encode_row(&e).starts_with("{\"event_id\":\"\\u0001\","));
}
