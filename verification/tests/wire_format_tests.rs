use opentelemetry_instana::context::SpanContext;
use opentelemetry_instana::exporter::{Exporter, Options};
use opentelemetry_instana::instana_span::emit_span;
use opentelemetry_instana::numfmt::{format_i64, format_u64};
use opentelemetry_instana::serialize_span::{self, EncodeError};
use opentelemetry_instana::span_data::{
    AttrValue, InstrumentationScope, KeyValue, Resource, SpanData, SpanEvent, SpanEvents,
    SpanKind, SpanLinks, Status,
};
use serde_json::Value;

fn kv_str(key: &str, value: &str) -> KeyValue {
    KeyValue { key: key.to_string(), value: AttrValue::Text(value.to_string()) }
}

fn basic_span() -> SpanData {
    SpanData {
        span_context: SpanContext::new(
            0x0102030405060708090a0b0c0d0e0f10u128,
            0x0102030405060708u64,
            true,
            false,
            Vec::new(),
        ),
        parent_span_id: 0,
        span_kind: SpanKind::Client,
        name: "test-span".to_string(),
        start_time_unix_nanos: 1_700_000_000_000_000_000,
        end_time_unix_nanos: 1_700_000_000_100_000_000,
        attributes: Vec::new(),
        dropped_attributes_count: 0,
        events: SpanEvents::default(),
        links: SpanLinks::default(),
        status: Status::Unset,
        instrumentation_scope: InstrumentationScope {
            name: "test-instrumentation".to_string(),
            version: None,
        },
    }
}

fn exporter() -> Exporter {
    Exporter::new(Options::default(), Resource { attributes: Vec::new() })
}

fn render(span: &SpanData) -> String {
    let w = serialize_span::convert_to_instana_span(&exporter(), span).unwrap();
    let mut out: Vec<char> = Vec::new();
    emit_span(&mut out, &w);
    out.iter().collect()
}

#[test]
fn test_decimal_formatting_exact() {
    let s: String = format_u64(0).iter().collect();
    assert_eq!(s, "0");
    let s: String = format_u64(18446744073709551615).iter().collect();
    assert_eq!(s, "18446744073709551615");
    let s: String = format_i64(-42).iter().collect();
    assert_eq!(s, "-42");
    let s: String = format_i64(i64::MIN).iter().collect();
    assert_eq!(s, "-9223372036854775808");
}

#[test]
fn test_hex_formatting_exact() {
    let s: String = opentelemetry_instana::ids::format_trace_id(0xdeadbeefu128).iter().collect();
    assert_eq!(s, "000000000000000000000000deadbeef");
    let s: String = opentelemetry_instana::ids::format_span_id(0xffu64).iter().collect();
    assert_eq!(s, "00000000000000ff");
}

#[test]
fn test_json_escaping_in_output() {
    let mut span = basic_span();
    span.attributes.push(kv_str("k", "a\"b\\c\nd\te\u{1}f"));

    let text = render(&span);
    // The raw text uses the JSON escape forms
    assert!(text.contains("a\\\"b\\\\c\\nd\\te\\u0001f"));

    // Parsing recovers the original value
    let v: Value = serde_json::from_str(&text).unwrap();
    assert_eq!(
        v["data"]["sdk"]["custom"]["tags"]["attributes"]["k"],
        "a\"b\\c\nd\te\u{1}f"
    );
}

#[test]
fn test_status_unset_omits_status_fields() {
    let span = basic_span();
    let text = render(&span);
    let v: Value = serde_json::from_str(&text).unwrap();
    let otel = v["data"]["sdk"]["custom"]["tags"]["otel"].as_object().unwrap();
    assert!(!otel.contains_key("status_code"));
    assert!(!otel.contains_key("status_description"));
}

#[test]
fn test_status_error_carries_description() {
    let mut span = basic_span();
    span.status = Status::Error { description: "boom".to_string() };
    let text = render(&span);
    let v: Value = serde_json::from_str(&text).unwrap();
    let otel = &v["data"]["sdk"]["custom"]["tags"]["otel"];
    assert_eq!(otel["status_code"], "StatusCode::STATUS_ERROR");
    assert_eq!(otel["status_description"], "boom");
    // The error count appears only for the one sentinel description
    assert!(v["ec"].is_null());
}

#[test]
fn test_start_before_epoch_fails() {
    let mut span = basic_span();
    span.start_time_unix_nanos = -1;
    let r = serialize_span::convert_to_instana_span(&exporter(), &span);
    assert!(matches!(r, Err(EncodeError::TimestampOutOfRange)));
}

#[test]
fn test_event_before_epoch_fails() {
    let mut span = basic_span();
    span.events = SpanEvents {
        events: vec![SpanEvent {
            name: "early".to_string(),
            timestamp_unix_nanos: -5,
            attributes: Vec::new(),
            dropped_attributes_count: 0,
        }],
        dropped_count: 0,
    };
    let r = serialize_span::convert_to_instana_span(&exporter(), &span);
    assert!(matches!(r, Err(EncodeError::TimestampOutOfRange)));
}

#[test]
fn test_batch_stops_at_first_failure() {
    let good = basic_span();
    let mut bad = basic_span();
    bad.end_time_unix_nanos = bad.start_time_unix_nanos - 1;

    let r = serialize_span::serialize_batch(&exporter(), &vec![good, bad]);
    assert!(matches!(r, Err(EncodeError::NegativeDuration)));
}

#[test]
fn test_duplicate_attributes_last_value_wins_in_wire_map() {
    let mut span = basic_span();
    span.attributes.push(kv_str("duplicate_key", "first_value"));
    span.attributes.push(kv_str("duplicate_key", "second_value"));
    span.attributes.push(kv_str("duplicate_key", "third_value"));

    let text = render(&span);
    let v: Value = serde_json::from_str(&text).unwrap();
    let attrs = v["data"]["sdk"]["custom"]["tags"]["attributes"].as_object().unwrap();
    // One map entry, holding the last value
    assert_eq!(attrs.len(), 1);
    assert_eq!(attrs["duplicate_key"], "third_value");
}

#[test]
fn test_resource_service_keys_filtered() {
    let resource = Resource {
        attributes: vec![
            kv_str("service.name", "svc"),
            kv_str("service.instance.id", "i-1"),
            kv_str("host.name", "h1"),
        ],
    };
    let e = Exporter::new(Options::default(), resource);
    let w = serialize_span::convert_to_instana_span(&e, &basic_span()).unwrap();
    let mut out: Vec<char> = Vec::new();
    emit_span(&mut out, &w);
    let text: String = out.iter().collect();
    let v: Value = serde_json::from_str(&text).unwrap();

    let res = v["data"]["sdk"]["custom"]["tags"]["resource"].as_object().unwrap();
    assert_eq!(res.len(), 1);
    assert_eq!(res["host.name"], "h1");
    // The service name still reaches data.service
    assert_eq!(v["data"]["service"], "svc");
}

#[test]
fn test_trace_parent_flag_requires_boolean() {
    let mut span = basic_span();
    span.attributes.push(KeyValue {
        key: "INTERNAL_TAG_TP".to_string(),
        value: AttrValue::Bool(true),
    });
    let v: Value = serde_json::from_str(&render(&span)).unwrap();
    assert_eq!(v["tp"], true);

    let mut span = basic_span();
    span.attributes.push(kv_str("INTERNAL_TAG_TP", "yes"));
    let v: Value = serde_json::from_str(&render(&span)).unwrap();
    assert!(v["tp"].is_null());
}

#[test]
fn test_synthetic_requires_integer_one() {
    let mut span = basic_span();
    span.attributes.push(KeyValue {
        key: "X-INSTANA-SYNTHETIC".to_string(),
        value: AttrValue::I64(2),
    });
    let v: Value = serde_json::from_str(&render(&span)).unwrap();
    assert_eq!(v["sy"], false);
}

#[test]
fn test_carrier_set_overwrites() {
    let mut c = opentelemetry_instana::carrier::Carrier::new();
    c.set("a", "1".to_string());
    c.set("b", "2".to_string());
    c.set("a", "3".to_string());
    assert_eq!(c.get("a").unwrap(), "3");
    assert_eq!(c.get("b").unwrap(), "2");
    assert!(c.get("c").is_none());
    assert_eq!(c.entries.len(), 2);
}

#[test]
fn test_array_attribute_degrades_to_string() {
    let mut span = basic_span();
    span.attributes.push(KeyValue {
        key: "list".to_string(),
        value: AttrValue::Array("[1,2,3]".to_string()),
    });
    let v: Value = serde_json::from_str(&render(&span)).unwrap();
    assert_eq!(v["data"]["sdk"]["custom"]["tags"]["attributes"]["list"], "[1,2,3]");
}
