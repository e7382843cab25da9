use serde_json::Value;
use tork_core::error::ErrorKind;
use tork_core::sse::{encode_event, SourceItem, SseConfig, SseEvent, SseStep, SseStream};

fn json_text(value: &Value) -> Result<String, String> {
    serde_json::to_string(value).map_err(|e| e.to_string())
}

fn encode<T>(event: SseEvent<T>, serialized: Result<String, String>, default: Option<&str>) -> String {
    let raw = match event.into_raw(serialized) {
        Ok(raw) => raw,
        Err(_) => panic!("the event should serialize"),
    };
    encode_event(&raw, default)
}

fn object_with(key: &str, n: i64) -> Value {
    let mut map = serde_json::Map::new();
    map.insert(key.to_owned(), Value::from(n));
    Value::Object(map)
}

#[test]
fn encodes_event_id_retry_and_data() {
    let data = object_with("id", 1);
    let text = encode(
        SseEvent::new(data.clone()).event("item").id("7").retry_ms(5000),
        json_text(&data),
        None,
    );
    assert_eq!(text, "event: item\nid: 7\nretry: 5000\ndata: {\"id\":1}\n\n");
}

#[test]
fn encodes_raw_data_with_event() {
    let text = encode(SseEvent::<()>::raw("[DONE]").event("done"), Err("unused".to_owned()), None);
    assert_eq!(text, "event: done\ndata: [DONE]\n\n");
}

#[test]
fn falls_back_to_the_default_event_name() {
    let data = Value::from(1);
    let text = encode(SseEvent::new(data.clone()), json_text(&data), Some("tick"));
    assert_eq!(text, "event: tick\ndata: 1\n\n");
}

#[test]
fn comment_and_multiline_raw_data_split_into_lines() {
    let text = encode(SseEvent::<()>::raw("a\nb").comment("note"), Ok(String::new()), None);
    assert_eq!(text, ": note\ndata: a\ndata: b\n\n");
}

#[test]
fn event_name_and_id_cannot_inject_extra_fields() {
    let data = Value::from(1);
    let text = encode(
        SseEvent::new(data.clone())
            .event("ping\nevent: admin\ndata: spoofed")
            .id("9\r\nid: 0\0"),
        json_text(&data),
        None,
    );
    assert_eq!(text, "event: pingevent: admindata: spoofed\nid: 9id: 0\ndata: 1\n\n");
    assert_eq!(text.matches("\n\n").count(), 1, "exactly one event terminator");
    assert_eq!(text.lines().filter(|l| l.starts_with("event: ")).count(), 1);
    assert_eq!(text.lines().filter(|l| l.starts_with("id: ")).count(), 1);
}

#[test]
fn serialize_error_is_reported_for_typed_sse_events() {
    let error = match SseEvent::new(()).into_raw(Err("nope".to_owned())) {
        Ok(_) => panic!("expected serialization to fail"),
        Err(error) => error,
    };
    assert_eq!(error.kind(), ErrorKind::Internal);
    assert!(error.message().starts_with("failed to serialize SSE data:"));
}

#[test]
fn builder_flags_toggle_headers_and_timeout_defaults() {
    let config = SseConfig::new().event("tick").no_cache(false).disable_proxy_buffering(false).no_heartbeat();
    let headers = config.response_headers();
    assert_eq!(headers, vec![("content-type", "text/event-stream")]);
    assert!(config.heartbeat.is_none());

    let defaults = SseConfig::new().response_headers();
    assert_eq!(
        defaults,
        vec![
            ("content-type", "text/event-stream"),
            ("cache-control", "no-cache"),
            ("x-accel-buffering", "no"),
        ]
    );
}

#[test]
fn stream_emits_events_then_the_done_frame() {
    let config = SseConfig::new().event("tick").done_event("[DONE]");
    let mut stream = SseStream::start(&config);
    let data = object_with("n", 1);
    let raw = match SseEvent::new(data.clone()).into_raw(json_text(&data)) {
        Ok(raw) => raw,
        Err(_) => panic!("the event should serialize"),
    };
    match stream.on_item(SourceItem::Event(raw)) {
        SseStep::Emit(text) => assert_eq!(text, "event: tick\ndata: {\"n\":1}\n\n"),
        _ => panic!("expected an emitted frame"),
    }
    match stream.on_item(SourceItem::Ended) {
        SseStep::Finish(Some(frame)) => assert_eq!(frame, "event: tick\ndata: [DONE]\n\n"),
        _ => panic!("expected the done frame"),
    }
    assert!(stream.is_finished());
}

#[test]
fn oversized_events_are_skipped() {
    let config = SseConfig::new().max_event_size(40);
    let mut stream = SseStream::start(&config);
    let small = Value::from("tiny");
    let large = Value::from("a really long value that exceeds the configured maximum size");
    let small_raw = SseEvent::new(small.clone()).into_raw(json_text(&small)).ok().unwrap();
    let large_raw = SseEvent::new(large.clone()).into_raw(json_text(&large)).ok().unwrap();
    match stream.on_item(SourceItem::Event(small_raw)) {
        SseStep::Emit(text) => assert!(text.contains("data: \"tiny\"")),
        _ => panic!("small kept"),
    }
    assert!(matches!(stream.on_item(SourceItem::Event(large_raw)), SseStep::Skip));
}

#[test]
fn client_timeout_finishes_without_emitting_a_done_event() {
    let config = SseConfig::new().client_timeout(tork_core::duration::Duration::from_millis(20));
    let mut stream = SseStream::start(&config);
    assert_eq!(stream.finish(), None);
    assert!(stream.is_finished());
}
