use opentelemetry_instana::exporter::{BuildError, ExportError, Exporter, Options};
use opentelemetry_instana::span_data::{AttrValue, KeyValue, Resource};

fn kv_str(key: &str, value: &str) -> KeyValue {
    KeyValue { key: key.to_string(), value: AttrValue::Text(value.to_string()) }
}

fn get_resource() -> Resource {
    Resource { attributes: vec![kv_str("service.name", "test-service")] }
}

#[test]
fn test_instana_exporter_options_default() {
    let options = Options::default();

    assert!(options.endpoint.contains("/com.instana.plugin.generic.rawtrace"));
    assert_eq!(options.hostname, String::new());
    assert_eq!(options.source_address, String::new());
    assert_eq!(options.service, String::new());

    assert_eq!(options.headers.len(), 1);
    assert_eq!(options.headers[0].0, "Content-Type");
    assert_eq!(options.headers[0].1, "application/json");
}

#[test]
fn test_instana_exporter_options_with_endpoint() {
    let endpoint = "http://test-endpoint:1234/path";
    let options = Options::with_endpoint(endpoint).unwrap();

    assert_eq!(options.endpoint, endpoint);
    assert_eq!(options.hostname, String::new());
    assert_eq!(options.source_address, String::new());
    assert_eq!(options.service, String::new());
}

#[test]
fn test_instana_exporter_options_with_invalid_endpoint() {
    let invalid_endpoint = "not-a-valid-url";
    let options = Options::with_endpoint(invalid_endpoint);

    assert!(options.is_none());
}

#[test]
fn test_instana_exporter_options_with_endpoint_normalizes() {
    // The URL parser emits a normalized form: a missing path becomes "/"
    let options = Options::with_endpoint("http://example.com").unwrap();
    assert_eq!(options.endpoint, "http://example.com/");
}

#[test]
fn test_instana_exporter_resource_getters() {
    let exporter = Exporter::new(Options::default(), get_resource());

    let service_name = exporter.get_service_name().unwrap();
    assert!(matches!(service_name, AttrValue::Text(s) if s == "test-service"));

    assert!(exporter.get_process_pid().is_none());
    assert!(exporter.get_host_id().is_none());
    assert!(exporter.get_cloud_provider().is_none());
}

#[test]
fn test_instana_exporter_shutdown() {
    let mut exporter = Exporter::new(Options::default(), get_resource());

    // First shutdown should succeed
    let result = exporter.shutdown();
    assert!(result.is_ok());

    // Second shutdown should fail with AlreadyShutdown
    let result = exporter.shutdown();
    assert!(matches!(result, Err(ExportError::AlreadyShutdown)));
}

#[test]
fn test_instana_exporter_force_flush() {
    let mut exporter = Exporter::new(Options::default(), get_resource());

    let result = exporter.force_flush();
    assert!(result.is_ok());
}

#[test]
fn test_instana_exporter_set_resource() {
    let base_resource = Resource { attributes: Vec::new() };
    let mut exporter = Exporter::new(Options::default(), base_resource);

    assert!(exporter.get_resource().attributes.is_empty());

    let new_resource = get_resource();
    exporter.set_resource(&new_resource);

    let held = exporter.get_resource();
    assert_eq!(held.attributes.len(), 1);
    assert_eq!(held.attributes[0].key, "service.name");
    assert!(matches!(&held.attributes[0].value, AttrValue::Text(s) if s == "test-service"));
}

#[test]
fn test_instana_exporter_export_after_shutdown() {
    let mut exporter = Exporter::new(Options::default(), get_resource());
    exporter.shutdown().unwrap();

    let result = exporter.export_payload(&Vec::new());
    assert!(matches!(result, Err(ExportError::AlreadyShutdown)));
}

#[test]
fn test_instana_exporter_export_payload_empty_batch() {
    let exporter = Exporter::new(Options::default(), get_resource());

    let payload = exporter.export_payload(&Vec::new()).unwrap();
    assert_eq!(payload, "[]");
}

#[test]
fn test_instana_exporter_response_outcome() {
    let options = Options::with_endpoint("http://agent:42699/trace").unwrap();
    let exporter = Exporter::new(options, get_resource());

    assert!(exporter.export_response_outcome(200, "Success").is_ok());
    assert!(exporter.export_response_outcome(204, "").is_ok());

    let result = exporter.export_response_outcome(500, "Server Error");
    match result {
        Err(ExportError::InternalFailure(msg)) => {
            assert!(msg.contains("500"));
            assert!(msg.contains("http://agent:42699/trace"));
            assert!(msg.contains("Server Error"));
        },
        _ => panic!("Expected InternalFailure error"),
    }
}

#[test]
fn test_build_error_messages() {
    assert_eq!(BuildError::NoHttpClient.message(), "no http client specified");
    assert!(BuildError::ThreadSpawnFailed.message().contains("thread"));
}
