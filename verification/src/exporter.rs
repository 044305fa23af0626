//! The exporter core: its options, its build-time errors, and the pure
//! state and decisions of the export/shutdown lifecycle. The HTTP transport
//! itself lives outside this crate; everything here is a function of plain
//! values.

use vstd::prelude::*;
use crate::numfmt::dec_nat;
use crate::jsonout::emit_u64;
use crate::span_data::{attr_lookup, AttrValue, Resource, SpanData};
use crate::serialize_span::{
    batch_output_ok, encode_error_text, serialize_batch, spec_encode_err,
};
use crate::strutil::{chars_to_string, push_str_chars};

verus! {

/// View of a header list as key/value character sequences.
pub open spec fn headers_view(h: Seq<(String, String)>) -> Seq<(Seq<char>, Seq<char>)> {
    Seq::new(h.len(), |i: int| (h[i].0@, h[i].1@))
}

/// Connection options of the exporter: the endpoint the batch is posted to
/// and the headers sent along with it.
#[derive(Debug)]
pub struct Options {
    pub endpoint: String,
    pub hostname: String,
    pub source_address: String,
    pub service: String,
    pub headers: Vec<(String, String)>,
}

/// What a normalized options value looks like.
pub open spec fn options_matches(a: Options, b: Options) -> bool {
    a.endpoint@ == b.endpoint@ && a.hostname@ == b.hostname@ && a.source_address@
        == b.source_address@ && a.service@ == b.service@ && headers_view(a.headers@)
        == headers_view(b.headers@)
}

/// The default endpoint path below the agent host and port.
pub open spec fn default_endpoint() -> Seq<char> {
    "http://localhost:42699/com.instana.plugin.generic.rawtrace"@
}

impl Default for Options {
    /// The local agent endpoint on its default port, with a JSON
    /// content-type header and every other field empty.
    fn default() -> (r: Options)
        ensures
            r.endpoint@ == default_endpoint(),
            r.hostname@.len() == 0,
            r.source_address@.len() == 0,
            r.service@.len() == 0,
            headers_view(r.headers@) == seq![("Content-Type"@, "application/json"@)],
    {
        let mut headers: Vec<(String, String)> = Vec::new();
        headers.push(
            (String::from_str("Content-Type"), String::from_str("application/json")),
        );
        let r = Options {
            endpoint: String::from_str("http://localhost:42699/com.instana.plugin.generic.rawtrace"),
            hostname: String::new(),
            source_address: String::new(),
            service: String::new(),
            headers,
        };
        proof {
            assert(headers_view(r.headers@) =~= seq![("Content-Type"@, "application/json"@)]);
        }
        r
    }
}

/// The text that `url::Url::parse` produces for a given input, when the
/// input is an absolute URL it accepts; the result depends on the input
/// alone.
pub uninterp spec fn url_normalize(s: Seq<char>) -> Option<Seq<char>>;

/// Relies on `url::Url::parse` to validate the endpoint and on the parsed
/// URL's serialization for its normalized text.
#[verifier::external_body]
fn parse_url(s: &str) -> (r: Option<String>)
    ensures
        match r {
            Some(u) => url_normalize(s@) == Some(u@),
            None => url_normalize(s@) is None,
        },
{
    match url::Url::parse(s) {
        Ok(u) => Some(u.to_string()),
        Err(_) => None,
    }
}

impl Options {
    /// Options pointing at `endpoint`, if it parses as a URL; every other
    /// field keeps its default.
    pub fn with_endpoint(endpoint: &str) -> (r: Option<Options>)
        ensures
            match r {
                Some(o) => url_normalize(endpoint@) == Some(o.endpoint@) && o.hostname@.len() == 0
                    && o.source_address@.len() == 0 && o.service@.len() == 0 && headers_view(
                    o.headers@,
                ) == seq![("Content-Type"@, "application/json"@)],
                None => url_normalize(endpoint@) is None,
            },
    {
        match parse_url(endpoint) {
            Some(u) => {
                let base = Options::default();
                Some(
                    Options {
                        endpoint: u,
                        hostname: base.hostname,
                        source_address: base.source_address,
                        service: base.service,
                        headers: base.headers,
                    },
                )
            },
            None => None,
        }
    }

    /// An exact copy.
    pub fn duplicate(&self) -> (r: Options)
        ensures
            options_matches(r, *self),
    {
        let mut headers: Vec<(String, String)> = Vec::new();
        let n: usize = self.headers.len();
        let mut i: usize = 0;
        while i < n
            invariant
                n == self.headers@.len(),
                i <= n,
                headers@.len() == i,
                forall|j: int|
                    0 <= j < i ==> (#[trigger] headers@[j]).0@ == self.headers@[j].0@
                        && headers@[j].1@ == self.headers@[j].1@,
            decreases n - i,
        {
            headers.push((self.headers[i].0.clone(), self.headers[i].1.clone()));
            i = i + 1;
        }
        let r = Options {
            endpoint: self.endpoint.clone(),
            hostname: self.hostname.clone(),
            source_address: self.source_address.clone(),
            service: self.service.clone(),
            headers,
        };
        proof {
            assert(headers_view(r.headers@) =~= headers_view(self.headers@));
        }
        r
    }
}

/// Errors that can occur while building an exporter.
#[derive(Clone, Copy, Debug, PartialEq, Eq, Structural)]
pub enum BuildError {
    /// Spawning the thread that builds the default HTTP client failed.
    ThreadSpawnFailed,
    /// No HTTP client was specified and none could be built.
    NoHttpClient,
}

impl BuildError {
    /// A human-readable description.
    pub fn message(&self) -> (r: String)
        ensures
            (*self is ThreadSpawnFailed ==> r@
                == "Spawning a new thread failed. Unable to create Reqwest-Blocking client."@),
            (*self is NoHttpClient ==> r@ == "no http client specified"@),
    {
        match self {
            BuildError::ThreadSpawnFailed => String::from_str(
                "Spawning a new thread failed. Unable to create Reqwest-Blocking client.",
            ),
            BuildError::NoHttpClient => String::from_str("no http client specified"),
        }
    }
}

/// Errors surfaced by the export lifecycle.
#[derive(Debug)]
pub enum ExportError {
    /// The exporter was already shut down.
    AlreadyShutdown,
    /// An internal failure with a description.
    InternalFailure(String),
}

/// The exporter core: options, resource context, the shut-down flag and
/// whether a transport client is still held. The transport itself lives
/// with the caller; this type makes the lifecycle decisions.
#[derive(Debug)]
pub struct Exporter {
    pub options_: Options,
    pub resource_: Resource,
    pub is_shutdown_: bool,
    pub has_client_: bool,
}

impl Default for Exporter {
    /// Default options, empty resource, not shut down, no client.
    fn default() -> (r: Exporter)
        ensures
            r.options_.endpoint@ == default_endpoint(),
            r.resource_.attributes@.len() == 0,
            !r.is_shutdown_,
            !r.has_client_,
    {
        Exporter {
            options_: Options::default(),
            resource_: Resource::new_empty(),
            is_shutdown_: false,
            has_client_: false,
        }
    }
}

impl Exporter {
    /// A fresh exporter that holds a transport client.
    pub fn new(options: Options, resource: Resource) -> (r: Exporter)
        ensures
            options_matches(r.options_, options),
            r.resource_.attributes@ == resource.attributes@,
            !r.is_shutdown_,
            r.has_client_,
    {
        Exporter { options_: options, resource_: resource, is_shutdown_: false, has_client_: true }
    }

    pub fn get_resource(&self) -> (r: Resource)
        ensures
            r.attributes@ == self.resource_.attributes@,
    {
        self.resource_.duplicate()
    }

    pub fn get_resource_attributes(&self) -> (r: Resource)
        ensures
            r.attributes@ == self.resource_.attributes@,
    {
        self.resource_.duplicate()
    }

    /// The `service.name` resource attribute, if any.
    pub fn get_service_name(&self) -> (r: Option<AttrValue>)
        ensures
            match r {
                Some(v) => attr_lookup(self.resource_.attributes@, "service.name"@) == Some(v),
                None => attr_lookup(self.resource_.attributes@, "service.name"@) is None,
            },
    {
        match self.resource_.get("service.name") {
            Ok(v) => Some(v),
            Err(_) => None,
        }
    }

    /// The `process.pid` resource attribute, if any.
    pub fn get_process_pid(&self) -> (r: Option<AttrValue>)
        ensures
            match r {
                Some(v) => attr_lookup(self.resource_.attributes@, "process.pid"@) == Some(v),
                None => attr_lookup(self.resource_.attributes@, "process.pid"@) is None,
            },
    {
        match self.resource_.get("process.pid") {
            Ok(v) => Some(v),
            Err(_) => None,
        }
    }

    /// The `host.id` resource attribute, if any.
    pub fn get_host_id(&self) -> (r: Option<AttrValue>)
        ensures
            match r {
                Some(v) => attr_lookup(self.resource_.attributes@, "host.id"@) == Some(v),
                None => attr_lookup(self.resource_.attributes@, "host.id"@) is None,
            },
    {
        match self.resource_.get("host.id") {
            Ok(v) => Some(v),
            Err(_) => None,
        }
    }

    /// The `cloud.provider` resource attribute, if any.
    pub fn get_cloud_provider(&self) -> (r: Option<AttrValue>)
        ensures
            match r {
                Some(v) => attr_lookup(self.resource_.attributes@, "cloud.provider"@) == Some(v),
                None => attr_lookup(self.resource_.attributes@, "cloud.provider"@) is None,
            },
    {
        match self.resource_.get("cloud.provider") {
            Ok(v) => Some(v),
            Err(_) => None,
        }
    }

    pub fn get_options(&self) -> (r: Options)
        ensures
            options_matches(r, self.options_),
    {
        self.options_.duplicate()
    }

    /// Replaces the resource context.
    pub fn set_resource(&mut self, resource: &Resource)
        ensures
            final(self).resource_.attributes@ == resource.attributes@,
            final(self).options_ == old(self).options_,
            final(self).is_shutdown_ == old(self).is_shutdown_,
            final(self).has_client_ == old(self).has_client_,
    {
        self.resource_ = resource.duplicate();
    }

    /// Flushing is a no-op for this exporter: every export call already
    /// hands the whole batch to the transport.
    pub fn force_flush(&mut self) -> (r: Result<(), ExportError>)
        ensures
            r is Ok,
            *final(self) == *old(self),
    {
        Ok(())
    }

    /// Shuts the exporter down. The first call releases the client and
    /// succeeds; any later call finds the client gone and fails.
    pub fn shutdown(&mut self) -> (r: Result<(), ExportError>)
        ensures
            final(self).is_shutdown_,
            !final(self).has_client_,
            final(self).options_ == old(self).options_,
            final(self).resource_ == old(self).resource_,
            r is Ok <==> old(self).has_client_,
            r is Err ==> r matches Err(ExportError::AlreadyShutdown),
    {
        self.is_shutdown_ = true;
        if self.has_client_ {
            self.has_client_ = false;
            Ok(())
        } else {
            Err(ExportError::AlreadyShutdown)
        }
    }

    /// The pure half of an export call: refuses after shutdown or once the
    /// client is gone, otherwise serializes the batch to the JSON payload
    /// that the transport should post.
    pub fn export_payload(&self, batch: &Vec<SpanData>) -> (r: Result<String, ExportError>)
        ensures
            self.is_shutdown_ ==> r matches Err(ExportError::AlreadyShutdown),
            (!self.is_shutdown_ && !self.has_client_) ==> r matches Err(
                ExportError::AlreadyShutdown,
            ),
            (!self.is_shutdown_ && self.has_client_) ==> match r {
                Ok(s) => batch_output_ok(s@, self.resource_.attributes@, batch@) && (forall|i: int|
                    0 <= i < batch@.len() ==> spec_encode_err(#[trigger] batch@[i]) is None),
                Err(e) => e matches ExportError::InternalFailure(m) && (exists|i: int|
                    0 <= i < batch@.len() && (#[trigger] spec_encode_err(batch@[i]) matches Some(
                        first,
                    ) && m@ == "Serialization error: "@ + encode_error_text(first)) && (forall|
                        j: int,
                    | 0 <= j < i ==> spec_encode_err(#[trigger] batch@[j]) is None)),
            },
    {
        if self.is_shutdown_ {
            return Err(ExportError::AlreadyShutdown);
        }
        if !self.has_client_ {
            return Err(ExportError::AlreadyShutdown);
        }
        match serialize_batch(self, batch) {
            Ok(s) => Ok(s),
            Err(e) => {
                let mut msg: Vec<char> = Vec::new();
                push_str_chars(&mut msg, "Serialization error: ");
                let detail = e.message();
                push_str_chars(&mut msg, detail.as_str());
                let m = chars_to_string(&msg);
                proof {
                    assert(m@ =~= "Serialization error: "@ + encode_error_text(e));
                }
                Err(ExportError::InternalFailure(m))
            },
        }
    }

    /// Judges the transport's HTTP response: a 2xx status is success, any
    /// other status becomes an internal failure naming the endpoint, the
    /// status code and the response body.
    pub fn export_response_outcome(&self, status: u16, body: &str) -> (r: Result<(), ExportError>)
        ensures
            r is Ok <==> (200 <= status < 300),
            match r {
                Ok(_) => true,
                Err(e) => e matches ExportError::InternalFailure(m) && m@
                    == "OpenTelemetry trace export failed. Url: "@ + self.options_.endpoint@
                    + ", Status Code: "@ + dec_nat(status as nat) + ", Response: "@ + body@,
            },
    {
        if 200 <= status && status < 300 {
            Ok(())
        } else {
            let mut msg: Vec<char> = Vec::new();
            push_str_chars(&mut msg, "OpenTelemetry trace export failed. Url: ");
            push_str_chars(&mut msg, self.options_.endpoint.as_str());
            push_str_chars(&mut msg, ", Status Code: ");
            emit_u64(&mut msg, status as u64);
            push_str_chars(&mut msg, ", Response: ");
            push_str_chars(&mut msg, body);
            let m = chars_to_string(&msg);
            proof {
                assert(m@ =~= "OpenTelemetry trace export failed. Url: "@
                    + self.options_.endpoint@ + ", Status Code: "@ + dec_nat(status as nat)
                    + ", Response: "@ + body@);
            }
            Err(ExportError::InternalFailure(m))
        }
    }
}

} // verus!
