use clickpipe_rs::model::RawEvent;
use clickpipe_rs::pipeline::ValidationBatch;
use clickpipe_rs::text::{is_blank, push_decimal};

fn raw(event_id: Option<&str>) -> RawEvent {
    RawEvent {
        event_id: event_id.map(String::from),
        ts: Some("t".to_string()),
        source: Some("s".to_string()),
        event_name: Some("n".to_string()),
        user_id: None,
        payload: None,
    }
}

#[test]
fn blank_means_trim_is_empty() {
    for s in ["", " ", "\t\n", "\u{3000}", "\u{2009}\u{205f}"] {
        assert!(is_blank(s));
        assert_eq!(is_blank(s), s.trim().is_empty());
    }
    for s in ["a", " a ", "\u{200b}", "-"] {
        assert!(!is_blank(s));
        assert_eq!(is_blank(s), s.trim().is_empty());
    }
}

#[test]
fn decimal_rendering_matches_display() {
    for n in [0u64, 7, 10, 99, 100, 123456789, u64::MAX] {
        let mut s = String::from("x");
        push_decimal(&mut s, n);
        assert_eq!(s, format!("x{n}"));
    }
}

#[test]
fn batch_counts_every_event_once() {
    let mut batch = ValidationBatch::new();
    assert!(batch.accept(raw(Some("a"))).is_none());
    let refused = batch.accept(raw(None)).unwrap();
    assert_eq!(refused.message(), "validation error: event_id is missing");
    assert!(batch.accept(raw(Some("b"))).is_none());
    assert!(batch.accept(raw(Some(""))).is_some());
    assert_eq!(batch.valid.len(), 2);
    assert_eq!(batch.invalid_count, 2);
    assert_eq!(batch.valid[0].event_id, "a");
    assert_eq!(batch.valid[1].event_id, "b");
}
