use opentelemetry_instana::context::{SpanContext, TraceStateEntry};
use opentelemetry_instana::exporter::{Exporter, Options};
use opentelemetry_instana::instana_span::emit_span;
use opentelemetry_instana::serialize_span;
use opentelemetry_instana::span_data::{
    AttrValue, FloatRepr, InstrumentationScope, KeyValue, Resource, SpanData, SpanEvent,
    SpanEvents, SpanKind, SpanLink, SpanLinks, Status,
};
use serde_json::Value;

fn kv_str(key: &str, value: &str) -> KeyValue {
    KeyValue { key: key.to_string(), value: AttrValue::Text(value.to_string()) }
}

fn kv_i64(key: &str, value: i64) -> KeyValue {
    KeyValue { key: key.to_string(), value: AttrValue::I64(value) }
}

fn kv_bool(key: &str, value: bool) -> KeyValue {
    KeyValue { key: key.to_string(), value: AttrValue::Bool(value) }
}

fn kv_f64(key: &str, value: f64) -> KeyValue {
    let json = serde_json::to_string(&serde_json::Number::from_f64(value).unwrap()).unwrap();
    let text = format!("{}", value);
    KeyValue { key: key.to_string(), value: AttrValue::F64(FloatRepr { json, text }) }
}

fn get_resource() -> Resource {
    Resource { attributes: vec![kv_str("service.name", "test-service")] }
}

fn get_empty_resource() -> Resource {
    Resource { attributes: Vec::new() }
}

fn exporter_with(resource: Resource) -> Exporter {
    Exporter::new(Options::default(), resource)
}

const BASE_TIME_NANOS: i128 = 1_700_000_000_000_000_000;

fn create_test_span_data(span_kind: SpanKind, with_parent: bool) -> SpanData {
    let attributes = vec![kv_i64("INTERNAL_TAG_ENTITY_ID", 100), kv_str("INTERNAL_TAG_CRTP", "ntg")];

    let parent_span_id = if with_parent { 0x0807060504030201u64 } else { 0u64 };

    SpanData {
        span_context: SpanContext::new(
            0x0102030405060708090a0b0c0d0e0f10u128,
            0x0102030405060708u64,
            true,
            false,
            Vec::new(),
        ),
        parent_span_id,
        span_kind,
        name: "test-span".to_string(),
        start_time_unix_nanos: BASE_TIME_NANOS,
        end_time_unix_nanos: BASE_TIME_NANOS + 100_000_000, // 100ms duration
        attributes,
        dropped_attributes_count: 0,
        events: SpanEvents::default(),
        links: SpanLinks::default(),
        status: Status::Okay,
        instrumentation_scope: InstrumentationScope {
            name: "test-instrumentation".to_string(),
            version: None,
        },
    }
}

fn create_span_with_synthetic_tag() -> SpanData {
    let mut span = create_test_span_data(SpanKind::Client, false);
    span.attributes.push(kv_i64("X-INSTANA-SYNTHETIC", 1));
    span
}

fn create_span_with_error_status() -> SpanData {
    let mut span = create_test_span_data(SpanKind::Client, false);
    span.status = Status::Error { description: "something went wrong".to_string() };
    span
}

fn create_span_with_trace_state() -> SpanData {
    let mut span = create_test_span_data(SpanKind::Client, false);
    // Correlation attributes set directly, with no trace state
    span.attributes.push(kv_str("INTERNAL_TAG_CRID", "123"));
    span.attributes.push(kv_str("INTERNAL_TAG_CRTP", "ntg"));
    span
}

fn create_span_with_null_attributes() -> SpanData {
    let mut span = create_test_span_data(SpanKind::Client, false);
    span.attributes.push(kv_str("empty_string", ""));
    span.attributes.push(kv_i64("zero_int", 0));
    span.attributes.push(kv_f64("zero_float", 0.0));
    span.attributes.push(kv_bool("false_bool", false));
    span.attributes.push(kv_str("whitespace_string", "   "));
    span
}

fn create_span_with_negative_duration() -> SpanData {
    let mut span = create_test_span_data(SpanKind::Client, false);
    span.start_time_unix_nanos = BASE_TIME_NANOS + 10_000_000_000; // 10s in the future
    span.end_time_unix_nanos = BASE_TIME_NANOS;
    span
}

fn create_span_with_json_special_chars() -> SpanData {
    let mut span = create_test_span_data(SpanKind::Client, false);
    span.attributes.push(kv_str(
        "escaped_string",
        r#"Special chars: "quotes", \backslashes\, /slashes/, control chars: \b\f\n\r\t"#,
    ));
    span.attributes.push(kv_str(
        "json_object_string",
        r#"{"nested":"value","with":"quotes"}"#,
    ));
    span
}

fn create_span_with_unicode_chars() -> SpanData {
    let mut span = create_test_span_data(SpanKind::Client, false);
    span.attributes.push(kv_str("emoji", "😀 😎 🚀 💯"));
    span.attributes.push(kv_str(
        "international",
        "こんにちは 你好 Привет Olá Здравствуйте",
    ));
    span.attributes.push(kv_str("symbols", "♠ ♥ ♦ ♣ ★ ☆ ☂ ♞"));
    span
}

fn create_span_with_timestamp_edge_cases() -> (SpanData, SpanData) {
    // 1. Epoch start (1970-01-01)
    let mut epoch_span = create_test_span_data(SpanKind::Client, false);
    epoch_span.start_time_unix_nanos = 0;
    epoch_span.end_time_unix_nanos = 1_000_000_000;

    // 2. Far future date (year 3000 approximately)
    let mut future_span = create_test_span_data(SpanKind::Client, false);
    future_span.start_time_unix_nanos = 32_503_680_000i128 * 1_000_000_000;
    future_span.end_time_unix_nanos = future_span.start_time_unix_nanos + 1_000_000_000;

    (epoch_span, future_span)
}

fn serialize_and_parse(exporter: &Exporter, span: &SpanData) -> Result<Value, String> {
    let instana_span = match serialize_span::convert_to_instana_span(exporter, span) {
        Ok(s) => s,
        Err(e) => return Err(e.message()),
    };
    let mut out: Vec<char> = Vec::new();
    emit_span(&mut out, &instana_span);
    let json_string: String = out.iter().collect();
    serde_json::from_str(&json_string).map_err(|e| format!("{}", e))
}

#[test]
fn test_serialize_client_span() {
    let exporter = exporter_with(get_resource());
    let span = create_test_span_data(SpanKind::Client, false);

    let json_value = serialize_and_parse(&exporter, &span).expect("Failed to serialize span");

    assert!(json_value.is_object());
    assert_eq!(json_value["k"], 2);
    assert_eq!(json_value["t"], "090a0b0c0d0e0f10");
    assert_eq!(json_value["s"], "0102030405060708");
    assert_eq!(json_value["sy"], false);
    assert_eq!(json_value["n"], "sdk");
    assert!(json_value["data"].is_object());
    assert_eq!(json_value["data"]["sdk"]["name"], "test-span");
    assert_eq!(json_value["data"]["sdk"]["type"], "exit");
    assert_eq!(json_value["data"]["service"], "test-service");
}

#[test]
fn test_serialize_server_span() {
    let exporter = exporter_with(get_resource());
    let span = create_test_span_data(SpanKind::Server, false);

    let json_value = serialize_and_parse(&exporter, &span).expect("Failed to serialize span");

    assert_eq!(json_value["k"], 1);
    assert_eq!(json_value["lt"], "0102030405060708090a0b0c0d0e0f10");
    assert_eq!(json_value["data"]["sdk"]["type"], "entry");
}

#[test]
fn test_serialize_internal_span() {
    let exporter = exporter_with(get_resource());
    let span = create_test_span_data(SpanKind::Internal, false);

    let json_value = serialize_and_parse(&exporter, &span).expect("Failed to serialize span");

    assert_eq!(json_value["k"], 3);
    assert_eq!(json_value["data"]["sdk"]["type"], "intermediate");
}

#[test]
fn test_serialize_with_parent() {
    let exporter = exporter_with(get_resource());
    let span = create_test_span_data(SpanKind::Client, true);

    let json_value = serialize_and_parse(&exporter, &span).expect("Failed to serialize span");

    assert_eq!(json_value["p"], "0807060504030201");
}

#[test]
fn test_serialize_with_synthetic_tag() {
    let exporter = exporter_with(get_resource());
    let span = create_span_with_synthetic_tag();

    let json_value = serialize_and_parse(&exporter, &span).expect("Failed to serialize span");

    assert_eq!(json_value["sy"], true);
}

#[test]
fn test_serialize_with_error_status() {
    let exporter = exporter_with(get_resource());
    let span = create_span_with_error_status();

    let json_value = serialize_and_parse(&exporter, &span).expect("Failed to serialize span");

    assert_eq!(json_value["ec"], 1);
}

#[test]
fn test_serialize_with_trace_state() {
    let exporter = exporter_with(get_resource());
    let span = create_span_with_trace_state();

    let json_value = serialize_and_parse(&exporter, &span).expect("Failed to serialize span");

    assert_eq!(json_value["crid"], "123");
    assert_eq!(json_value["crtp"], "ntg");
}

#[test]
fn test_serialize_with_null_attributes() {
    let exporter = exporter_with(get_resource());
    let span = create_span_with_null_attributes();

    let json_value = serialize_and_parse(&exporter, &span).expect("Failed to serialize span");

    assert!(json_value.is_object());
    assert!(json_value["data"].is_object());
    assert!(json_value["data"]["sdk"].is_object());
    assert!(json_value["data"]["sdk"]["custom"].is_object());
    assert!(json_value["data"]["sdk"]["custom"]["tags"].is_object());

    let tags = &json_value["data"]["sdk"]["custom"]["tags"];

    if let Some(attributes) = tags["attributes"].as_object() {
        assert_eq!(attributes["empty_string"], "");
        assert_eq!(attributes["zero_int"], 0);
        assert_eq!(attributes["zero_float"], 0.0);
        assert_eq!(attributes["false_bool"], false);
        assert_eq!(attributes["whitespace_string"], "   ");
    } else {
        panic!("Expected attributes object in tags");
    }
}

#[test]
fn test_serialize_with_empty_resource() {
    let exporter = exporter_with(get_empty_resource());
    let span = create_test_span_data(SpanKind::Client, false);

    let json_value = serialize_and_parse(&exporter, &span).expect("Failed to serialize span");

    assert!(json_value.is_object());
    assert!(json_value["data"].is_object());

    // The service field should be absent with an empty resource
    assert!(json_value["data"]["service"].is_null());

    assert_eq!(json_value["t"], "090a0b0c0d0e0f10");
    assert_eq!(json_value["s"], "0102030405060708");
    assert_eq!(json_value["n"], "sdk");
}

#[test]
fn test_serialize_with_negative_duration() {
    let exporter = exporter_with(get_resource());
    let span = create_span_with_negative_duration();

    let result = serialize_span::convert_to_instana_span(&exporter, &span);
    assert!(result.is_err());

    let error_message = result.unwrap_err().message();
    assert!(error_message.contains("Error parsing duration"));
}

#[test]
fn test_serialize_with_combined_edge_cases() {
    let exporter = exporter_with(get_empty_resource());
    let span = create_span_with_null_attributes();

    let json_value = serialize_and_parse(&exporter, &span).expect("Failed to serialize span");

    assert!(json_value.is_object());
    assert!(json_value["data"]["service"].is_null());

    let tags = &json_value["data"]["sdk"]["custom"]["tags"];
    if let Some(attributes) = tags["attributes"].as_object() {
        assert_eq!(attributes["empty_string"], "");
        assert_eq!(attributes["zero_int"], 0);
        assert_eq!(attributes["false_bool"], false);
    } else {
        panic!("Expected attributes object in tags");
    }
}

#[test]
fn test_serialize_batch() {
    let exporter = exporter_with(get_resource());

    let spans = vec![
        create_test_span_data(SpanKind::Client, false),
        create_test_span_data(SpanKind::Server, true),
        create_span_with_synthetic_tag(),
    ];

    let json_str =
        serialize_span::serialize_batch(&exporter, &spans).expect("Failed to serialize batch");
    let json_value: Value = serde_json::from_str(&json_str).expect("Failed to parse JSON");

    assert!(json_value.is_array());
    assert_eq!(json_value.as_array().unwrap().len(), 3);

    let first_span = &json_value[0];
    assert_eq!(first_span["k"], 2); // Client span
    assert_eq!(first_span["t"], "090a0b0c0d0e0f10");
    assert_eq!(first_span["s"], "0102030405060708");

    let second_span = &json_value[1];
    assert_eq!(second_span["k"], 1); // Server span
    assert_eq!(second_span["p"], "0807060504030201"); // Has parent

    let third_span = &json_value[2];
    assert_eq!(third_span["sy"], true); // Synthetic span
}

#[test]
fn test_serialize_with_json_special_chars() {
    let exporter = exporter_with(get_resource());
    let span = create_span_with_json_special_chars();

    let json_value = serialize_and_parse(&exporter, &span).expect("Failed to serialize span");

    assert!(json_value.is_object());

    let tags = &json_value["data"]["sdk"]["custom"]["tags"];
    let attributes = tags["attributes"].as_object().expect("Expected attributes object");

    let escaped_str = attributes["escaped_string"].as_str().expect("Expected string value");
    assert!(escaped_str.contains("quotes"));
    assert!(escaped_str.contains("backslashes"));
    assert!(escaped_str.contains("slashes"));
    assert!(escaped_str.contains("control chars"));

    let json_obj_str = attributes["json_object_string"]
        .as_str()
        .expect("Expected string value");
    assert!(json_obj_str.contains(r#"{"nested":"value","with":"quotes"}"#));
}

#[test]
fn test_serialize_with_unicode_chars() {
    let exporter = exporter_with(get_resource());
    let span = create_span_with_unicode_chars();

    let json_value = serialize_and_parse(&exporter, &span).expect("Failed to serialize span");

    assert!(json_value.is_object());

    let tags = &json_value["data"]["sdk"]["custom"]["tags"];
    let attributes = tags["attributes"].as_object().expect("Expected attributes object");

    assert_eq!(attributes["emoji"], "😀 😎 🚀 💯");
    assert_eq!(
        attributes["international"],
        "こんにちは 你好 Привет Olá Здравствуйте"
    );
    assert_eq!(attributes["symbols"], "♠ ♥ ♦ ♣ ★ ☆ ☂ ♞");
}

#[test]
fn test_serialize_with_timestamp_edge_cases() {
    let exporter = exporter_with(get_resource());
    let (epoch_span, future_span) = create_span_with_timestamp_edge_cases();

    let epoch_json =
        serialize_and_parse(&exporter, &epoch_span).expect("Failed to serialize epoch span");

    assert_eq!(epoch_json["ts"], 0);
    assert_eq!(epoch_json["d"], 1000); // 1 second duration in milliseconds

    let future_json =
        serialize_and_parse(&exporter, &future_span).expect("Failed to serialize future span");

    assert_eq!(future_json["ts"], 32503680000000_i64);
    assert_eq!(future_json["d"], 1000);
}

#[test]
fn test_serialize_empty_collections() {
    let exporter = exporter_with(get_resource());

    let mut span = create_test_span_data(SpanKind::Client, false);
    span.attributes.clear();

    let json_value = serialize_and_parse(&exporter, &span).expect("Failed to serialize span");

    assert!(json_value.is_object());

    let tags = &json_value["data"]["sdk"]["custom"]["tags"];
    assert!(!tags.as_object().unwrap().contains_key("attributes"));
    assert!(!tags.as_object().unwrap().contains_key("events"));
    assert!(!tags.as_object().unwrap().contains_key("links"));
}

#[test]
fn test_serialize() {
    let resource = Resource {
        attributes: vec![
            kv_str("service.name", "basic-instana-test"),
            kv_str("telemetry.sdk.language", "rust"),
            kv_str("telemetry.sdk.name", "opentelemetry"),
            kv_str("telemetry.sdk.version", "0.29.0"),
        ],
    };
    let exporter = exporter_with(resource);

    let time: i128 = 1_700_000_000_123_000_000;
    let span_data = SpanData {
        span_context: SpanContext::new(0, 0, false, false, Vec::new()),
        parent_span_id: 0,
        span_kind: SpanKind::Client,
        name: "testspan".to_string(),
        start_time_unix_nanos: time,
        end_time_unix_nanos: time,
        attributes: vec![kv_i64("INTERNAL_TAG_ENTITY_ID", 100), kv_str("INTERNAL_TAG_CRTP", "ntg")],
        dropped_attributes_count: 100,
        events: SpanEvents::default(),
        links: SpanLinks::default(),
        status: Status::Okay,
        instrumentation_scope: InstrumentationScope {
            name: "fake-instrumentation".to_string(),
            version: None,
        },
    };

    let converted_json = serialize_and_parse(&exporter, &span_data).unwrap();

    let timestamp: i64 = (time / 1_000_000) as i64;
    let expected_text = format!(
        "{{\"crtp\":\"ntg\",\"d\":0,\"data\":{{\"sdk\":{{\"custom\":{{\"tags\":{{\"attributes\":{{\"INTERNAL_TAG_CRTP\":\"ntg\",\"INTERNAL_TAG_ENTITY_ID\":100}},\"otel\":{{\"dropped_attributes_count\":100,\"dropped_events_count\":0,\"dropped_links_count\":0,\"scope.name\":\"fake-instrumentation\",\"status_code\":\"StatusCode::STATUS_OK\"}},\"resource\":{{\"telemetry.sdk.language\":\"rust\",\"telemetry.sdk.name\":\"opentelemetry\",\"telemetry.sdk.version\":\"0.29.0\"}}}}}},\"name\":\"testspan\",\"type\":\"exit\"}},\"service\":\"basic-instana-test\"}},\"f\":{{}},\"k\":2,\"n\":\"sdk\",\"s\":\"0000000000000000\",\"sy\":false,\"t\":\"0000000000000000\",\"ts\":{}}}",
        timestamp
    );
    let expected_json: Value = serde_json::from_str(&expected_text).unwrap();

    assert_eq!(converted_json, expected_json);
}

#[test]
fn test_serialize_trace_state_level_one() {
    // A trace-state X-INSTANA-L entry with level 1 and a second segment
    // carrying correlation sub-fields
    let exporter = exporter_with(get_resource());
    let mut span = create_test_span_data(SpanKind::Client, false);
    span.span_context = SpanContext::new(
        0x0102030405060708090a0b0c0d0e0f10u128,
        0x0102030405060708u64,
        true,
        false,
        vec![TraceStateEntry {
            key: "X-INSTANA-L".to_string(),
            value: "1 , correlationType=web ; correlationId=abc123".to_string(),
        }],
    );

    let json_value = serialize_and_parse(&exporter, &span).expect("Failed to serialize span");

    assert_eq!(json_value["crid"], "abc123");
    assert_eq!(json_value["crtp"], "web");
}

#[test]
fn test_serialize_trace_state_level_zero() {
    // An unsampled level in the trace state yields no correlation data, and
    // the attribute fallback is not consulted
    let exporter = exporter_with(get_resource());
    let mut span = create_test_span_data(SpanKind::Client, false);
    span.attributes.push(kv_str("INTERNAL_TAG_CRID", "123"));
    span.span_context = SpanContext::new(
        0x0102030405060708090a0b0c0d0e0f10u128,
        0x0102030405060708u64,
        true,
        false,
        vec![TraceStateEntry {
            key: "X-INSTANA-L".to_string(),
            value: "0,correlationType=web;correlationId=abc123".to_string(),
        }],
    );

    let json_value = serialize_and_parse(&exporter, &span).expect("Failed to serialize span");

    assert!(json_value["crid"].is_null());
    assert!(json_value["crtp"].is_null());
}

#[test]
fn test_serialize_events_and_links() {
    let exporter = exporter_with(get_resource());
    let mut span = create_test_span_data(SpanKind::Client, false);
    span.events = SpanEvents {
        events: vec![SpanEvent {
            name: "event1".to_string(),
            timestamp_unix_nanos: 1_700_000_000_500_000_000,
            attributes: vec![kv_str("event_attr1", "event_value1")],
            dropped_attributes_count: 2,
        }],
        dropped_count: 3,
    };
    span.links = SpanLinks {
        links: vec![SpanLink {
            span_context: SpanContext::new(
                0x1112131415161718191a1b1c1d1e1f10u128,
                0x2122232425262728u64,
                true,
                false,
                Vec::new(),
            ),
            attributes: vec![kv_str("link_attr1", "link_value1")],
            dropped_attributes_count: 4,
        }],
        dropped_count: 5,
    };
    span.dropped_attributes_count = 1;

    let json_value = serialize_and_parse(&exporter, &span).expect("Failed to serialize span");

    let tags = &json_value["data"]["sdk"]["custom"]["tags"];
    assert_eq!(tags["events"]["event1"]["value"]["event_attr1"], "event_value1");
    assert_eq!(tags["events"]["event1"]["timestamp"], "1700000000500");
    assert_eq!(tags["links"][0]["t"], "191a1b1c1d1e1f10");
    assert_eq!(tags["links"][0]["s"], "2122232425262728");
    assert_eq!(tags["links"][0]["attributes"]["link_attr1"], "link_value1");

    // span + event + link dropped-attribute counts are summed
    assert_eq!(tags["otel"]["dropped_attributes_count"], 7);
    assert_eq!(tags["otel"]["dropped_events_count"], 3);
    assert_eq!(tags["otel"]["dropped_links_count"], 5);
}
