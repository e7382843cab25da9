use serde_json::Value;
use tork_core::log_record::{console_line, console_timestamp_text, error_record, json_record, record_fields, request_fields};
use tork_core::logging::{ErrorLogDetail, Level};

fn deep_chain(depth: usize) -> Vec<String> {
    (0..depth).rev().map(|level| format!("level {level}")).collect()
}

#[test]
fn default_error_detail_is_type_only() {
    let record = error_record(ErrorLogDetail::TypeOnly, "app::OuterError", "outer", vec!["inner".to_owned()]);
    assert!(record.kind_name.ends_with("OuterError"));
    assert!(record.message.is_none());
    assert!(record.chain.is_none());
}

#[test]
fn message_only_includes_the_top_level_message_without_the_chain() {
    let record = error_record(ErrorLogDetail::MessageOnly, "app::OuterError", "outer", vec!["inner".to_owned()]);
    assert!(record.kind_name.ends_with("OuterError"));
    assert_eq!(record.message.as_deref(), Some("outer"));
    assert!(record.chain.is_none());
}

#[test]
fn full_detail_records_the_source_chain() {
    let record = error_record(ErrorLogDetail::FullChain, "app::OuterError", "outer", vec!["inner".to_owned()]);
    assert_eq!(record.message.as_deref(), Some("outer"));
    assert_eq!(record.chain, Some(vec!["inner".to_owned()]));
    let without_source = error_record(ErrorLogDetail::FullChain, "app::InnerError", "inner", Vec::new());
    assert!(without_source.chain.is_none());
}

#[test]
fn full_chain_is_truncated_at_the_cap() {
    let record = error_record(ErrorLogDetail::FullChain, "Deep", "level 99", deep_chain(99));
    let chain = record.chain.expect("a chain");
    assert_eq!(chain.len(), 17);
    assert_eq!(chain[0], "level 98");
    assert_eq!(chain.last().unwrap(), "... (chain truncated)");
}

#[test]
fn console_format_is_human_readable() {
    let fields = vec![("user_id".to_owned(), "42".to_owned())];
    let line = console_line(
        7,
        "01/02/2024, 03:04:05",
        Level::Info,
        false,
        Some("OrderService"),
        "tork",
        Some("Creating order"),
        &fields,
        None,
        3,
    );
    assert_eq!(line, "[Tork] 7  - 01/02/2024, 03:04:05   INFO [OrderService] Creating order user_id=42 +3ms\n");
}

#[test]
fn colored_console_lines_wrap_the_level() {
    let line = console_line(1, "t", Level::Error, true, None, "target", None, &[], Some("{\"kind\":\"x\"}"), 0);
    assert_eq!(line, "[Tork] 1  - t  \u{1b}[31mERROR\u{1b}[0m [target]  error={\"kind\":\"x\"} +0ms\n");
}

#[test]
fn console_timestamps_are_zero_padded() {
    assert_eq!(console_timestamp_text(1, 2, 2024, 3, 4, 5), "01/02/2024, 03:04:05");
    assert_eq!(console_timestamp_text(12, 31, 999, 23, 59, 59), "12/31/0999, 23:59:59");
    assert_eq!(console_timestamp_text(1, 1, -5, 0, 0, 0), "01/01/-005, 00:00:00");
}

fn object_of(entries: Vec<(String, Value)>) -> serde_json::Map<String, Value> {
    let mut object = serde_json::Map::new();
    for (key, value) in entries {
        object.insert(key, value);
    }
    object
}

#[test]
fn json_format_is_flat() {
    let fields = vec![("user_id".to_owned(), Value::from(42)), ("level".to_owned(), Value::from("spoof"))];
    let entries = json_record(
        Value::from("2024-01-01T00:00:00Z"),
        Value::from("INFO"),
        Value::from("tork-api"),
        Value::from("OrderService"),
        Value::from("Creating order"),
        fields,
        None,
    );
    let output = serde_json::to_string(&Value::Object(object_of(entries))).unwrap();
    assert!(output.contains("\"level\":\"INFO\""), "{output}");
    assert!(output.contains("\"service\":\"tork-api\""), "{output}");
    assert!(output.contains("\"context\":\"OrderService\""), "{output}");
    assert!(output.contains("\"message\":\"Creating order\""), "{output}");
    assert!(output.contains("\"user_id\":42"), "{output}");
    assert!(!output.contains("spoof"), "{output}");
}

#[test]
fn the_error_replaces_a_field_of_the_same_name() {
    let fields = vec![("error".to_owned(), Value::from("field")), ("a".to_owned(), Value::from(1))];
    let entries = json_record(
        Value::from("t"),
        Value::from("ERROR"),
        Value::from("s"),
        Value::from("c"),
        Value::from("m"),
        fields,
        Some(Value::from("boom")),
    );
    assert_eq!(entries.len(), 7);
    assert_eq!(entries[5], ("error".to_owned(), Value::from("boom")));
    assert_eq!(entries[6], ("a".to_owned(), Value::from(1)));
}

#[test]
fn base_fields_start_every_record() {
    let fields = record_fields(vec![("tenant", Value::from("acme")), ("user_id", Value::from(42))]);
    assert_eq!(fields, vec![("tenant".to_owned(), Value::from("acme")), ("user_id".to_owned(), Value::from(42))]);
}

#[test]
fn repeated_base_keys_keep_the_last_value() {
    let fields = record_fields(vec![("tenant", Value::from("acme")), ("tenant", Value::from("globex"))]);
    assert_eq!(fields, vec![("tenant".to_owned(), Value::from("globex"))]);
}

#[test]
fn from_request_uses_request_metadata_and_default_context() {
    let fields = request_fields(Some(b"req-123"), "GET", "/logs");
    assert_eq!(
        fields,
        vec![("request_id", "req-123".to_owned()), ("method", "GET".to_owned()), ("path", "/logs".to_owned())]
    );
    let unreadable = request_fields(Some(&[0xff]), "POST", "/");
    assert_eq!(unreadable, vec![("method", "POST".to_owned()), ("path", "/".to_owned())]);
}

#[test]
fn set_entry_replaces_in_place_or_appends() {
    let mut fields = vec![("a".to_owned(), 1), ("b".to_owned(), 2)];
    tork_core::log_record::set_entry(&mut fields, "a", 3);
    tork_core::log_record::set_entry(&mut fields, "c", 4);
    assert_eq!(fields, vec![("a".to_owned(), 3), ("b".to_owned(), 2), ("c".to_owned(), 4)]);
}
