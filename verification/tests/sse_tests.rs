//! The SSE decoder: chunk-boundary independence and line handling.

use brp_tool::json::JsonValue;
use brp_tool::sse::{SseEvent, SseStream};

fn feed_all(chunks: &[&[u8]]) -> (Vec<SseEvent>, Vec<u8>) {
    let mut s = SseStream::new();
    let mut events = Vec::new();
    for c in chunks {
        events.extend(s.push_chunk(c));
    }
    (events, s.buf)
}

#[test]
fn test_chunk_boundaries_do_not_matter() {
    let input = b"data: {\"a\":1}\nevent: x\ndata: 2\n";
    let whole = feed_all(&[input]);
    let halves = feed_all(&[&input[..7], &input[7..]]);
    let bytes: Vec<&[u8]> = input.chunks(1).collect();
    let single = feed_all(&bytes);
    assert_eq!(whole, halves);
    assert_eq!(whole, single);
    assert_eq!(whole.0.len(), 2);
}

#[test]
fn test_data_line_parses_json() {
    let (events, rest) = feed_all(&[b"data: {\"value\": 42}\n"]);
    assert_eq!(events.len(), 1);
    match &events[0] {
        SseEvent::Json(JsonValue::Object(f)) => {
            assert_eq!(f[0].0, "value");
            assert_eq!(f[0].1, JsonValue::Int(42));
        }
        other => panic!("expected a parsed payload, got {:?}", other),
    }
    assert!(rest.is_empty());
}

#[test]
fn test_other_fields_and_blank_lines_ignored() {
    let (events, _) = feed_all(&[b"event: update\nid: 7\nretry: 100\n\r\n\ndata: true\n"]);
    assert_eq!(events, vec![SseEvent::Json(JsonValue::Bool(true))]);
}

#[test]
fn test_carriage_return_trimmed() {
    let (events, _) = feed_all(&[b"data: 5\r\n"]);
    assert_eq!(events, vec![SseEvent::Json(JsonValue::Int(5))]);
}

#[test]
fn test_malformed_payload_scoped_to_element() {
    let (events, _) = feed_all(&[b"data: not json\ndata: 1\n"]);
    assert_eq!(events.len(), 2);
    match &events[0] {
        SseEvent::Malformed(raw) => assert_eq!(raw.as_slice(), b"not json"),
        other => panic!("expected a malformed element, got {:?}", other),
    }
    assert_eq!(events[1], SseEvent::Json(JsonValue::Int(1)));
}

#[test]
fn test_unterminated_line_stays_buffered() {
    let mut s = SseStream::new();
    let events = s.push_chunk(b"data: {\"a\"");
    assert!(events.is_empty());
    assert_eq!(s.buf.as_slice(), b"data: {\"a\"");
    let events = s.push_chunk(b": 1}\n");
    assert_eq!(events.len(), 1);
    assert!(s.buf.is_empty());
}
