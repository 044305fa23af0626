//! Verified core of an Instana exporter for OpenTelemetry-style trace data.
//!
//! The crate has two halves: a trace-context propagation codec that encodes
//! and decodes trace identity into a fixed set of carrier fields with strict
//! validation, and a span wire-format encoder that deterministically turns an
//! in-memory span record into the backend's JSON document.

pub mod strutil;
pub mod ids;
pub mod carrier;
pub mod context;
pub mod propagator;
pub mod composite;
pub mod numfmt;
pub mod span_data;
pub mod vecmap;
pub mod jsonout;
pub mod instana_span;
pub mod serialize_span;
pub mod exporter;
