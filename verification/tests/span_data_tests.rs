use opentelemetry_instana::context::SpanContext;
use opentelemetry_instana::span_data::{
    AttrValue, InstrumentationScope, KeyValue, SpanData, SpanEvent, SpanEvents, SpanKind,
    SpanLink, SpanLinks, Status, GET,
};

fn kv_str(key: &str, value: &str) -> KeyValue {
    KeyValue { key: key.to_string(), value: AttrValue::Text(value.to_string()) }
}

fn kv_i64(key: &str, value: i64) -> KeyValue {
    KeyValue { key: key.to_string(), value: AttrValue::I64(value) }
}

fn kv_bool(key: &str, value: bool) -> KeyValue {
    KeyValue { key: key.to_string(), value: AttrValue::Bool(value) }
}

fn kv_f64(key: &str, value: f64) -> KeyValue {
    let json = serde_json::to_string(&serde_json::Number::from_f64(value).unwrap()).unwrap();
    let text = format!("{}", value);
    KeyValue {
        key: key.to_string(),
        value: AttrValue::F64(opentelemetry_instana::span_data::FloatRepr { json, text }),
    }
}

fn text_value(s: &str) -> AttrValue {
    AttrValue::Text(s.to_string())
}

fn attr_text(v: &AttrValue) -> &str {
    match v {
        AttrValue::Text(s) => s.as_str(),
        _ => panic!("expected a string value"),
    }
}

fn create_test_span_data() -> SpanData {
    let attributes = vec![
        kv_str("test_key1", "test_value1"),
        kv_i64("test_key2", 123),
        kv_bool("test_key3", true),
    ];

    let time: i128 = 1_700_000_000_000_000_000;

    let events = vec![
        SpanEvent {
            name: "event1".to_string(),
            timestamp_unix_nanos: time,
            attributes: vec![kv_str("event_attr1", "event_value1")],
            dropped_attributes_count: 0,
        },
        SpanEvent {
            name: "event2".to_string(),
            timestamp_unix_nanos: time,
            attributes: vec![kv_str("event_attr2", "event_value2")],
            dropped_attributes_count: 0,
        },
    ];

    let link_context = SpanContext::new(
        0x0102030405060708090a0b0c0d0e0f10u128,
        0x0102030405060708u64,
        true,
        false,
        Vec::new(),
    );
    let links = vec![SpanLink {
        span_context: link_context,
        attributes: vec![kv_str("link_attr1", "link_value1")],
        dropped_attributes_count: 0,
    }];

    SpanData {
        span_context: SpanContext::new(
            0x1102030405060708090a0b0c0d0e0f11u128,
            0x1102030405060708u64,
            true,
            false,
            Vec::new(),
        ),
        parent_span_id: 0x1807060504030201u64,
        span_kind: SpanKind::Client,
        name: "test-span".to_string(),
        start_time_unix_nanos: time,
        end_time_unix_nanos: time,
        attributes,
        dropped_attributes_count: 0,
        events: SpanEvents { events, dropped_count: 0 },
        links: SpanLinks { links, dropped_count: 0 },
        status: Status::Okay,
        instrumentation_scope: InstrumentationScope {
            name: "test-instrumentation".to_string(),
            version: None,
        },
    }
}

fn create_span_with_special_char_keys() -> SpanData {
    let mut span_data = create_test_span_data();
    span_data.attributes = vec![
        kv_str("key-with-dashes", "value1"),
        kv_str("key.with.dots", "value2"),
        kv_str("key with spaces", "value3"),
        kv_str("key_with_underscores", "value4"),
        kv_str("key@with@at@symbols", "value5"),
        kv_str("key/with/slashes", "value6"),
        kv_str("key:with:colons", "value7"),
    ];
    span_data
}

fn create_span_with_duplicate_keys() -> SpanData {
    let mut span_data = create_test_span_data();
    span_data.attributes = vec![
        kv_str("duplicate_key", "first_value"),
        kv_str("unique_key", "unique_value"),
        kv_str("duplicate_key", "second_value"),
        kv_str("another_key", "another_value"),
        kv_str("duplicate_key", "third_value"),
    ];
    span_data
}

fn create_span_with_empty_values() -> SpanData {
    let mut span_data = create_test_span_data();
    span_data.attributes = vec![
        kv_str("empty_string", ""),
        kv_i64("zero_int", 0),
        kv_f64("zero_float", 0.0),
        kv_bool("false_bool", false),
        kv_str("whitespace_string", "   "),
        kv_str("normal_key", "normal_value"),
    ];
    span_data
}

#[test]
fn test_get_attribute_existing() {
    let span_data = create_test_span_data();

    let result = span_data.get_attribute("test_key1").unwrap();
    assert_eq!(attr_text(&result), "test_value1");

    let result = span_data.get_attribute("test_key2").unwrap();
    assert!(matches!(result, AttrValue::I64(123)));

    let result = span_data.get_attribute("test_key3").unwrap();
    assert!(matches!(result, AttrValue::Bool(true)));
}

#[test]
fn test_get_attribute_non_existing() {
    let span_data = create_test_span_data();

    let result = span_data.get_attribute("non_existing_key");
    assert!(result.is_err());
}

#[test]
fn test_get_attributes() {
    let span_data = create_test_span_data();

    let attributes = span_data.get_attributes();
    assert_eq!(attributes.len(), 3);

    assert!(attributes
        .iter()
        .any(|kv| kv.key == "test_key1" && matches!(&kv.value, AttrValue::Text(s) if s == "test_value1")));
    assert!(attributes
        .iter()
        .any(|kv| kv.key == "test_key2" && matches!(kv.value, AttrValue::I64(123))));
    assert!(attributes
        .iter()
        .any(|kv| kv.key == "test_key3" && matches!(kv.value, AttrValue::Bool(true))));
}

#[test]
fn test_get_events() {
    let span_data = create_test_span_data();

    let events = span_data.get_events();
    assert_eq!(events.len(), 2);

    assert!(events.iter().any(|e| e.name == "event1"));
    assert!(events.iter().any(|e| e.name == "event2"));

    let event1 = events.iter().find(|e| e.name == "event1").unwrap();
    assert_eq!(event1.attributes.len(), 1);
    assert_eq!(event1.attributes[0].key, "event_attr1");
    assert_eq!(attr_text(&event1.attributes[0].value), "event_value1");
}

#[test]
fn test_get_links() {
    let span_data = create_test_span_data();

    let links = span_data.get_links();
    assert_eq!(links.len(), 1);

    let link = &links[0];
    assert_eq!(link.attributes.len(), 1);
    assert_eq!(link.attributes[0].key, "link_attr1");
    assert_eq!(attr_text(&link.attributes[0].value), "link_value1");

    let trace_hex: String =
        opentelemetry_instana::ids::format_trace_id(link.span_context.trace_id)
            .iter()
            .collect();
    let span_hex: String = opentelemetry_instana::ids::format_span_id(link.span_context.span_id)
        .iter()
        .collect();
    assert_eq!(trace_hex, "0102030405060708090a0b0c0d0e0f10");
    assert_eq!(span_hex, "0102030405060708");
}

#[test]
fn test_get_attribute_case_sensitivity() {
    let span_data = create_test_span_data();

    // Original key is "test_key1" (lowercase); a different case must fail
    let result = span_data.get_attribute("TEST_KEY1");
    assert!(result.is_err());

    let result = span_data.get_attribute("test_key1");
    assert!(result.is_ok());
    assert_eq!(attr_text(&result.unwrap()), "test_value1");
}

#[test]
fn test_get_attribute_with_special_characters() {
    let span_data = create_span_with_special_char_keys();

    let result = span_data.get_attribute("key-with-dashes").unwrap();
    assert_eq!(attr_text(&result), "value1");

    let result = span_data.get_attribute("key.with.dots").unwrap();
    assert_eq!(attr_text(&result), "value2");

    let result = span_data.get_attribute("key with spaces").unwrap();
    assert_eq!(attr_text(&result), "value3");

    let result = span_data.get_attribute("key_with_underscores").unwrap();
    assert_eq!(attr_text(&result), "value4");

    let result = span_data.get_attribute("key@with@at@symbols").unwrap();
    assert_eq!(attr_text(&result), "value5");

    let result = span_data.get_attribute("key/with/slashes").unwrap();
    assert_eq!(attr_text(&result), "value6");

    let result = span_data.get_attribute("key:with:colons").unwrap();
    assert_eq!(attr_text(&result), "value7");

    // Partial matches must not work
    let result = span_data.get_attribute("key-with");
    assert!(result.is_err());

    // Exact matching is required
    let result = span_data.get_attribute("key with spaces ");
    assert!(result.is_err());
}

#[test]
fn test_get_attribute_with_duplicate_keys() {
    let span_data = create_span_with_duplicate_keys();

    // The first occurrence of a duplicate key wins
    let result = span_data.get_attribute("duplicate_key").unwrap();
    assert_eq!(attr_text(&result), "first_value");

    let result = span_data.get_attribute("unique_key").unwrap();
    assert_eq!(attr_text(&result), "unique_value");

    let result = span_data.get_attribute("another_key").unwrap();
    assert_eq!(attr_text(&result), "another_value");

    // get_attributes returns all attributes including duplicates
    let attributes = span_data.get_attributes();
    assert_eq!(attributes.len(), 5);

    let duplicate_count = attributes
        .iter()
        .filter(|kv| kv.key == "duplicate_key")
        .count();
    assert_eq!(duplicate_count, 3);

    let duplicate_values: Vec<&AttrValue> = attributes
        .iter()
        .filter(|kv| kv.key == "duplicate_key")
        .map(|kv| &kv.value)
        .collect();

    assert_eq!(duplicate_values.len(), 3);
    assert_eq!(attr_text(duplicate_values[0]), "first_value");
    assert_eq!(attr_text(duplicate_values[1]), "second_value");
    assert_eq!(attr_text(duplicate_values[2]), "third_value");
}

#[test]
fn test_get_attribute_with_empty_values() {
    let span_data = create_span_with_empty_values();

    let result = span_data.get_attribute("empty_string").unwrap();
    assert_eq!(attr_text(&result), "");

    let result = span_data.get_attribute("zero_int").unwrap();
    assert!(matches!(result, AttrValue::I64(0)));

    let result = span_data.get_attribute("zero_float").unwrap();
    assert!(matches!(result, AttrValue::F64(_)));

    let result = span_data.get_attribute("false_bool").unwrap();
    assert!(matches!(result, AttrValue::Bool(false)));

    let result = span_data.get_attribute("whitespace_string").unwrap();
    assert_eq!(attr_text(&result), "   ");

    let result = span_data.get_attribute("normal_key").unwrap();
    assert_eq!(attr_text(&result), "normal_value");

    let attributes = span_data.get_attributes();
    assert_eq!(attributes.len(), 6);

    let empty_string_attr = attributes.iter().find(|kv| kv.key == "empty_string").unwrap();
    assert_eq!(attr_text(&empty_string_attr.value), "");

    let zero_int_attr = attributes.iter().find(|kv| kv.key == "zero_int").unwrap();
    assert!(matches!(zero_int_attr.value, AttrValue::I64(0)));
}

#[test]
fn test_span() {
    let span_data = SpanData {
        span_context: SpanContext::new(0, 0, false, false, Vec::new()),
        parent_span_id: 0,
        span_kind: SpanKind::Client,
        name: "testspan".to_string(),
        start_time_unix_nanos: 1_700_000_000_000_000_000,
        end_time_unix_nanos: 1_700_000_000_000_000_000,
        attributes: vec![kv_i64("INTERNAL_TAG_ENTITY_ID", 100), kv_str("INTERNAL_TAG_CRTP", "ntg")],
        dropped_attributes_count: 100,
        events: SpanEvents::default(),
        links: SpanLinks::default(),
        status: Status::Okay,
        instrumentation_scope: InstrumentationScope {
            name: "fake-instrumentation".to_string(),
            version: None,
        },
    };

    let x = span_data.get_attribute("INTERNAL_TAG_CRTP").unwrap();

    assert_eq!(attr_text(&x), attr_text(&text_value("ntg")));
}
