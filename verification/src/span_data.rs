//! The span record: the read-only description of one traced operation that
//! the encoder consumes, and the accessor helpers over it.

use vstd::prelude::*;
use crate::context::SpanContext;

verus! {

/// The role of a span relative to a service boundary.
#[derive(Clone, Copy, Debug, PartialEq, Eq, Structural)]
pub enum SpanKind {
    Internal,
    Server,
    Client,
    Producer,
    Consumer,
}

/// The two textual renderings of a 64-bit float attribute value: `json` as a
/// JSON number token, `text` as its plain display form.
#[derive(Debug)]
pub struct FloatRepr {
    pub json: String,
    pub text: String,
}

/// A typed attribute value. Array values carry only their display text: the
/// wire format degrades arrays to strings.
#[derive(Debug)]
pub enum AttrValue {
    Bool(bool),
    I64(i64),
    F64(FloatRepr),
    Text(String),
    Array(String),
}

/// One key/value attribute; keys need not be unique across a span's
/// attribute sequence.
#[derive(Debug)]
pub struct KeyValue {
    pub key: String,
    pub value: AttrValue,
}

/// A span's status: unset, ok, or an error with a description.
#[derive(Debug)]
pub enum Status {
    Unset,
    Okay,
    Error { description: String },
}

/// One event recorded on a span.
#[derive(Debug)]
pub struct SpanEvent {
    pub name: String,
    pub timestamp_unix_nanos: i128,
    pub attributes: Vec<KeyValue>,
    pub dropped_attributes_count: u32,
}

/// The events of a span together with the count of events dropped before
/// recording.
#[derive(Debug)]
pub struct SpanEvents {
    pub events: Vec<SpanEvent>,
    pub dropped_count: u32,
}

/// One link from a span to another span context.
#[derive(Debug)]
pub struct SpanLink {
    pub span_context: SpanContext,
    pub attributes: Vec<KeyValue>,
    pub dropped_attributes_count: u32,
}

/// The links of a span together with the count of links dropped before
/// recording.
#[derive(Debug)]
pub struct SpanLinks {
    pub links: Vec<SpanLink>,
    pub dropped_count: u32,
}

/// The instrumentation scope that produced a span.
#[derive(Debug)]
pub struct InstrumentationScope {
    pub name: String,
    pub version: Option<String>,
}

/// An immutable span record: identity, kind, name, timing, attributes,
/// events, links, status and scope. Timestamps are nanoseconds relative to
/// the epoch and may be negative (before it).
#[derive(Debug)]
pub struct SpanData {
    pub span_context: SpanContext,
    pub parent_span_id: u64,
    pub span_kind: SpanKind,
    pub name: String,
    pub start_time_unix_nanos: i128,
    pub end_time_unix_nanos: i128,
    pub attributes: Vec<KeyValue>,
    pub dropped_attributes_count: u32,
    pub events: SpanEvents,
    pub links: SpanLinks,
    pub status: Status,
    pub instrumentation_scope: InstrumentationScope,
}

/// The service/resource context an exporter holds: a sequence of typed
/// resource attributes.
#[derive(Debug)]
pub struct Resource {
    pub attributes: Vec<KeyValue>,
}

/// Absence marker returned by the attribute accessor.
#[derive(Clone, Copy, Debug, PartialEq, Eq, Structural)]
pub struct AttrNotFound;

/// Whether two events agree on name, timestamp, attributes and dropped
/// count.
pub open spec fn event_matches(a: SpanEvent, b: SpanEvent) -> bool {
    a.name@ == b.name@ && a.timestamp_unix_nanos == b.timestamp_unix_nanos && a.attributes@
        == b.attributes@ && a.dropped_attributes_count == b.dropped_attributes_count
}

/// Whether two links agree on span context, attributes and dropped count.
pub open spec fn link_matches(a: SpanLink, b: SpanLink) -> bool {
    a.span_context@ == b.span_context@ && a.attributes@ == b.attributes@
        && a.dropped_attributes_count == b.dropped_attributes_count
}

/// The value of the first attribute of `s` whose key is exactly `name`.
pub open spec fn attr_lookup(s: Seq<KeyValue>, name: Seq<char>) -> Option<AttrValue>
    decreases s.len(),
{
    if s.len() == 0 {
        None
    } else if s[0].key@ == name {
        Some(s[0].value)
    } else {
        attr_lookup(s.drop_first(), name)
    }
}

/// An exact copy of an attribute value.
pub fn dup_attr_value(v: &AttrValue) -> (r: AttrValue)
    ensures
        r == *v,
{
    match v {
        AttrValue::Bool(b) => AttrValue::Bool(*b),
        AttrValue::I64(i) => AttrValue::I64(*i),
        AttrValue::F64(fr) => AttrValue::F64(
            FloatRepr { json: fr.json.clone(), text: fr.text.clone() },
        ),
        AttrValue::Text(s) => AttrValue::Text(s.clone()),
        AttrValue::Array(s) => AttrValue::Array(s.clone()),
    }
}

/// An exact copy of one attribute.
pub fn dup_key_value(kv: &KeyValue) -> (r: KeyValue)
    ensures
        r == *kv,
{
    KeyValue { key: kv.key.clone(), value: dup_attr_value(&kv.value) }
}

/// An exact copy of an attribute sequence.
pub fn dup_attributes(attrs: &Vec<KeyValue>) -> (r: Vec<KeyValue>)
    ensures
        r@ == attrs@,
{
    let n: usize = attrs.len();
    let mut r: Vec<KeyValue> = Vec::new();
    let mut i: usize = 0;
    while i < n
        invariant
            n == attrs@.len(),
            i <= n,
            r@ == attrs@.take(i as int),
        decreases n - i,
    {
        r.push(dup_key_value(&attrs[i]));
        proof {
            assert(r@ =~= attrs@.take(i + 1));
        }
        i = i + 1;
    }
    proof {
        assert(attrs@.take(n as int) =~= attrs@);
    }
    r
}

/// First-match attribute search over `attrs`: the first attribute whose key
/// equals `name` wins; keys are compared exactly and case-sensitively.
pub fn lookup_attribute(attrs: &Vec<KeyValue>, name: &str) -> (r: Result<AttrValue, AttrNotFound>)
    ensures
        match r {
            Ok(v) => attr_lookup(attrs@, name@) == Some(v),
            Err(_) => attr_lookup(attrs@, name@) is None,
        },
{
    let n: usize = attrs.len();
    let mut i: usize = 0;
    proof {
        assert(attrs@.skip(0) =~= attrs@);
    }
    while i < n
        invariant
            n == attrs@.len(),
            i <= n,
            attr_lookup(attrs@, name@) == attr_lookup(attrs@.skip(i as int), name@),
        decreases n - i,
    {
        proof {
            assert(attrs@.skip(i as int)[0] == attrs@[i as int]);
            assert(attrs@.skip(i as int).drop_first() =~= attrs@.skip(i + 1));
        }
        if crate::strutil::str_eq(attrs[i].key.as_str(), name) {
            return Ok(dup_attr_value(&attrs[i].value));
        }
        i = i + 1;
    }
    proof {
        assert(attrs@.skip(n as int) =~= Seq::<KeyValue>::empty());
    }
    Err(AttrNotFound)
}

/// Read-only accessors over a span record.
pub trait GET {
    spec fn spec_attributes(&self) -> Seq<KeyValue>;

    spec fn spec_events(&self) -> Seq<SpanEvent>;

    spec fn spec_links(&self) -> Seq<SpanLink>;

    /// The value of the first attribute with exactly the given name;
    /// duplicates are legal and the first occurrence wins.
    fn get_attribute(&self, attribute_name: &str) -> (r: Result<AttrValue, AttrNotFound>)
        ensures
            match r {
                Ok(v) => attr_lookup(self.spec_attributes(), attribute_name@) == Some(v),
                Err(_) => attr_lookup(self.spec_attributes(), attribute_name@) is None,
            },
    ;

    /// The full ordered attribute sequence, duplicates included.
    fn get_attributes(&self) -> (r: Vec<KeyValue>)
        ensures
            r@ == self.spec_attributes(),
    ;

    /// The ordered event sequence.
    fn get_events(&self) -> (r: Vec<SpanEvent>)
        ensures
            r@.len() == self.spec_events().len(),
            forall|i: int|
                0 <= i < r@.len() ==> event_matches(#[trigger] r@[i], self.spec_events()[i]),
    ;

    /// The ordered link sequence.
    fn get_links(&self) -> (r: Vec<SpanLink>)
        ensures
            r@.len() == self.spec_links().len(),
            forall|i: int|
                0 <= i < r@.len() ==> link_matches(#[trigger] r@[i], self.spec_links()[i]),
    ;
}

impl GET for SpanData {
    open spec fn spec_attributes(&self) -> Seq<KeyValue> {
        self.attributes@
    }

    open spec fn spec_events(&self) -> Seq<SpanEvent> {
        self.events.events@
    }

    open spec fn spec_links(&self) -> Seq<SpanLink> {
        self.links.links@
    }

    fn get_attribute(&self, attribute_name: &str) -> (r: Result<AttrValue, AttrNotFound>) {
        lookup_attribute(&self.attributes, attribute_name)
    }

    fn get_attributes(&self) -> (r: Vec<KeyValue>) {
        dup_attributes(&self.attributes)
    }

    fn get_events(&self) -> (r: Vec<SpanEvent>) {
        let src = &self.events.events;
        let n: usize = src.len();
        let mut r: Vec<SpanEvent> = Vec::new();
        let mut i: usize = 0;
        while i < n
            invariant
                n == src@.len(),
                i <= n,
                r@.len() == i,
                forall|j: int| 0 <= j < i ==> event_matches(#[trigger] r@[j], src@[j]),
            decreases n - i,
        {
            let e = &src[i];
            r.push(
                SpanEvent {
                    name: e.name.clone(),
                    timestamp_unix_nanos: e.timestamp_unix_nanos,
                    attributes: dup_attributes(&e.attributes),
                    dropped_attributes_count: e.dropped_attributes_count,
                },
            );
            i = i + 1;
        }
        r
    }

    fn get_links(&self) -> (r: Vec<SpanLink>) {
        let src = &self.links.links;
        let n: usize = src.len();
        let mut r: Vec<SpanLink> = Vec::new();
        let mut i: usize = 0;
        while i < n
            invariant
                n == src@.len(),
                i <= n,
                r@.len() == i,
                forall|j: int| 0 <= j < i ==> link_matches(#[trigger] r@[j], src@[j]),
            decreases n - i,
        {
            let l = &src[i];
            r.push(
                SpanLink {
                    span_context: l.span_context.duplicate(),
                    attributes: dup_attributes(&l.attributes),
                    dropped_attributes_count: l.dropped_attributes_count,
                },
            );
            i = i + 1;
        }
        r
    }
}

impl Resource {
    /// An empty resource.
    pub fn new_empty() -> (r: Resource)
        ensures
            r.attributes@.len() == 0,
    {
        Resource { attributes: Vec::new() }
    }

    /// The value under `name`, first match first.
    pub fn get(&self, name: &str) -> (r: Result<AttrValue, AttrNotFound>)
        ensures
            match r {
                Ok(v) => attr_lookup(self.attributes@, name@) == Some(v),
                Err(_) => attr_lookup(self.attributes@, name@) is None,
            },
    {
        lookup_attribute(&self.attributes, name)
    }

    /// An exact copy.
    pub fn duplicate(&self) -> (r: Resource)
        ensures
            r.attributes@ == self.attributes@,
    {
        Resource { attributes: dup_attributes(&self.attributes) }
    }
}

impl Default for SpanEvents {
    /// No events, none dropped.
    fn default() -> (r: SpanEvents)
        ensures
            r.events@.len() == 0,
            r.dropped_count == 0,
    {
        SpanEvents { events: Vec::new(), dropped_count: 0 }
    }
}

impl Default for SpanLinks {
    /// No links, none dropped.
    fn default() -> (r: SpanLinks)
        ensures
            r.links@.len() == 0,
            r.dropped_count == 0,
    {
        SpanLinks { links: Vec::new(), dropped_count: 0 }
    }
}

} // verus!
