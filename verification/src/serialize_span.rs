//! The span encoder: the pure transformation from a span record and the
//! exporter's resource context to the backend's wire span, and the batch
//! encoder that renders a sequence of spans as one JSON document.

use vstd::prelude::*;
use vstd::arithmetic::div_mod::{lemma_add_mod_noop, lemma_small_mod};
use crate::context::TraceStateEntry;
use crate::exporter::Exporter;
use crate::ids::{format_span_id, format_trace_id, hex_pad};
use crate::instana_span::{
    emit_batch, json_of_batch, links_view, InstanaCustom, InstanaEvent, InstanaEventV, InstanaLink,
    InstanaLinkV, InstanaOtel, InstanaSdk, InstanaSpan, InstanaSpanData, InstanaSpanFrom,
    InstanaTags, TagValue, TagValueV,
};
use crate::numfmt::{dec_int, dec_nat, format_i64, format_u128};
use crate::span_data::{
    attr_lookup, AttrValue, KeyValue, SpanData, SpanEvent, SpanKind, SpanLink, Status,
};
use crate::strutil::{
    chars_eq_str, chars_to_string, find_char, find_char_spec, find_last_char, find_last_char_spec,
    starts_with_str, str_eq, str_to_chars, subvec, trim_chars, trim_spec, contains_str,
    contains_seq,
};
use crate::vecmap::{map_view, upsert, upsert_v, Entry};

verus! {

/// Why encoding a span failed; these are the only two conditions that abort
/// an encode, all missing data degrades to field omission instead.
#[derive(Clone, Copy, Debug, PartialEq, Eq, Structural)]
pub enum EncodeError {
    /// A span or event timestamp lies before the epoch.
    TimestampOutOfRange,
    /// The span's end time precedes its start time.
    NegativeDuration,
}

/// The description text of an encode error.
pub open spec fn encode_error_text(e: EncodeError) -> Seq<char> {
    match e {
        EncodeError::TimestampOutOfRange => "second time provided was later than self"@,
        EncodeError::NegativeDuration => (
        "Error parsing duration: second time provided was later than self"@),
    }
}

impl EncodeError {
    /// A human-readable description.
    pub fn message(&self) -> (r: String)
        ensures
            r@ == encode_error_text(*self),
    {
        match self {
            EncodeError::TimestampOutOfRange => String::from_str(
                "second time provided was later than self",
            ),
            EncodeError::NegativeDuration => String::from_str(
                "Error parsing duration: second time provided was later than self",
            ),
        }
    }
}

/// The backend kind code: 1 for entry spans, 2 for exit spans, 3 for
/// intermediate spans.
pub open spec fn kind_code(k: SpanKind) -> int {
    match k {
        SpanKind::Server => 1,
        SpanKind::Producer => 1,
        SpanKind::Internal => 3,
        SpanKind::Client => 2,
        SpanKind::Consumer => 2,
    }
}

/// The backend kind name.
pub open spec fn kind_type_str(k: SpanKind) -> Seq<char> {
    match k {
        SpanKind::Server => "entry"@,
        SpanKind::Producer => "entry"@,
        SpanKind::Internal => "intermediate"@,
        SpanKind::Client => "exit"@,
        SpanKind::Consumer => "exit"@,
    }
}

pub open spec fn is_entry_kind(k: SpanKind) -> bool {
    k == SpanKind::Server || k == SpanKind::Producer
}

/// How a typed attribute value appears inside the wire document's tag maps:
/// booleans, integers and floats pass through as JSON values, strings stay
/// strings, arrays degrade to their display text.
pub open spec fn tag_of_attr(v: AttrValue) -> TagValueV {
    match v {
        AttrValue::Bool(b) => TagValueV::Bool(b),
        AttrValue::I64(i) => TagValueV::Int(i as int),
        AttrValue::F64(fr) => TagValueV::Num(fr.json@),
        AttrValue::Text(s) => TagValueV::Text(s@),
        AttrValue::Array(s) => TagValueV::Text(s@),
    }
}

/// The display text of a typed attribute value.
pub open spec fn attr_display(v: AttrValue) -> Seq<char> {
    match v {
        AttrValue::Bool(b) => if b {
            "true"@
        } else {
            "false"@
        },
        AttrValue::I64(i) => dec_int(i as int),
        AttrValue::F64(fr) => fr.text@,
        AttrValue::Text(s) => s@,
        AttrValue::Array(s) => s@,
    }
}

/// The tag map an attribute sequence produces: each attribute inserted in
/// order, so a repeated name keeps its first position and last value.
pub open spec fn attr_map_spec(attrs: Seq<KeyValue>) -> Seq<(Seq<char>, TagValueV)>
    decreases attrs.len(),
{
    if attrs.len() == 0 {
        Seq::empty()
    } else {
        upsert_v(
            attr_map_spec(attrs.drop_last()),
            attrs.last().key@,
            tag_of_attr(attrs.last().value),
        )
    }
}

/// The value of the last attribute of `s` whose key is exactly `name`.
pub open spec fn last_attr_value(s: Seq<KeyValue>, name: Seq<char>) -> Option<AttrValue>
    decreases s.len(),
{
    if s.len() == 0 {
        None
    } else if s.last().key@ == name {
        Some(s.last().value)
    } else {
        last_attr_value(s.drop_last(), name)
    }
}

/// Law: the wire attribute map really is a map over the attribute names.
/// A name is present exactly when some attribute bears it, and its value is
/// the converted value of the last such attribute; the first such attribute
/// fixed the entry's position, the accessor's first-match reading stays
/// untouched.
pub proof fn lemma_attr_map_last_value_wins(attrs: Seq<KeyValue>, name: Seq<char>)
    ensures
        crate::vecmap::map_lookup(attr_map_spec(attrs), name) == (match last_attr_value(
            attrs,
            name,
        ) {
            Some(v) => Some(tag_of_attr(v)),
            None => None,
        }),
    decreases attrs.len(),
{
    if attrs.len() == 0 {
    } else {
        let inner = attr_map_spec(attrs.drop_last());
        let k = attrs.last().key@;
        let v = tag_of_attr(attrs.last().value);
        if k == name {
            crate::vecmap::lemma_map_lookup_upsert_same(inner, k, v);
        } else {
            lemma_attr_map_last_value_wins(attrs.drop_last(), name);
            crate::vecmap::lemma_map_lookup_upsert_other(inner, k, v, name);
        }
    }
}

/// The resource map: every resource attribute stringified, except those
/// whose key contains the substring `service.`.
pub open spec fn resource_map_spec(attrs: Seq<KeyValue>) -> Seq<(Seq<char>, Seq<char>)>
    decreases attrs.len(),
{
    if attrs.len() == 0 {
        Seq::empty()
    } else {
        let m = resource_map_spec(attrs.drop_last());
        if contains_seq(attrs.last().key@, "service."@) {
            m
        } else {
            upsert_v(m, attrs.last().key@, attr_display(attrs.last().value))
        }
    }
}

/// The wire form of one event: its attribute map plus its millisecond
/// timestamp as decimal text.
pub open spec fn event_v_of(e: SpanEvent) -> InstanaEventV {
    InstanaEventV {
        value: attr_map_spec(e.attributes@),
        timestamp: dec_nat(((e.timestamp_unix_nanos / 1000000) as nat)),
    }
}

/// The events map, keyed by event name: a repeated name keeps its first
/// position and last event.
pub open spec fn events_map_spec(events: Seq<SpanEvent>) -> Seq<(Seq<char>, InstanaEventV)>
    decreases events.len(),
{
    if events.len() == 0 {
        Seq::empty()
    } else {
        upsert_v(events_map_spec(events.drop_last()), events.last().name@, event_v_of(
            events.last(),
        ))
    }
}

/// The wire form of one link: the rightmost 16 hex characters of its trace
/// id, its span id, and its attribute map.
pub open spec fn link_v_of(l: SpanLink) -> InstanaLinkV {
    InstanaLinkV {
        trace_id: hex_pad(l.span_context.trace_id as nat, 32).subrange(16, 32),
        span_id: hex_pad(l.span_context.span_id as nat, 16),
        attributes: attr_map_spec(l.attributes@),
    }
}

/// The wire links, in order, no deduplication.
pub open spec fn links_spec(links: Seq<SpanLink>) -> Seq<InstanaLinkV> {
    Seq::new(links.len(), |i: int| link_v_of(links[i]))
}

pub open spec fn sum_event_dropped(events: Seq<SpanEvent>) -> int
    decreases events.len(),
{
    if events.len() == 0 {
        0
    } else {
        sum_event_dropped(events.drop_last()) + events.last().dropped_attributes_count as int
    }
}

pub open spec fn sum_link_dropped(links: Seq<SpanLink>) -> int
    decreases links.len(),
{
    if links.len() == 0 {
        0
    } else {
        sum_link_dropped(links.drop_last()) + links.last().dropped_attributes_count as int
    }
}

pub open spec fn has_negative_event_time(events: Seq<SpanEvent>) -> bool {
    exists|i: int| 0 <= i < events.len() && (#[trigger] events[i]).timestamp_unix_nanos < 0
}

/// The error, if any, that encoding this span must report: a start time
/// before the epoch, then an end time before the start, then an event
/// timestamp before the epoch.
pub open spec fn spec_encode_err(span: SpanData) -> Option<EncodeError> {
    if span.start_time_unix_nanos < 0 {
        Some(EncodeError::TimestampOutOfRange)
    } else if span.end_time_unix_nanos < span.start_time_unix_nanos {
        Some(EncodeError::NegativeDuration)
    } else if has_negative_event_time(span.events.events@) {
        Some(EncodeError::TimestampOutOfRange)
    } else {
        None
    }
}

/// The value of the first trace-state entry with key `k`, if any.
pub open spec fn trace_state_get(ts: Seq<TraceStateEntry>, k: Seq<char>) -> Option<Seq<char>>
    decreases ts.len(),
{
    if ts.len() == 0 {
        None
    } else if ts[0].key@ == k {
        Some(ts[0].value@)
    } else {
        trace_state_get(ts.drop_first(), k)
    }
}

/// The text after the last `:` of `s`, or all of `s` when it has none.
pub open spec fn after_last_colon(s: Seq<char>) -> Seq<char> {
    let j = find_last_char_spec(s, ':');
    if j < 0 {
        s
    } else {
        s.skip(j + 1)
    }
}

/// `s` with every leading occurrence of `p` removed.
pub open spec fn strip_repeated_prefix(s: Seq<char>, p: Seq<char>) -> Seq<char>
    decreases s.len(),
{
    if p.len() > 0 && p.is_prefix_of(s) && s.len() >= p.len() {
        strip_repeated_prefix(s.skip(p.len() as int), p)
    } else {
        s
    }
}

/// Applies one `;`-separated sub-field: a `correlationType=` or
/// `correlationId=` prefix (checked in that order) overwrites the
/// accumulated value, anything else is ignored.
pub open spec fn corr_piece_apply(
    raw: Seq<char>,
    acc: (Option<Seq<char>>, Option<Seq<char>>),
) -> (Option<Seq<char>>, Option<Seq<char>>) {
    let piece = trim_spec(raw);
    if "correlationType="@.is_prefix_of(piece) {
        (acc.0, Some(strip_repeated_prefix(piece, "correlationType="@)))
    } else if "correlationId="@.is_prefix_of(piece) {
        (Some(strip_repeated_prefix(piece, "correlationId="@)), acc.1)
    } else {
        acc
    }
}

/// Folds `corr_piece_apply` over the `;`-separated sub-fields of `s`, left
/// to right: the last matching sub-field wins.
pub open spec fn scan_corr(
    s: Seq<char>,
    acc: (Option<Seq<char>>, Option<Seq<char>>),
) -> (Option<Seq<char>>, Option<Seq<char>>)
    decreases s.len(),
    via scan_corr_decreases
{
    let i = find_char_spec(s, ';');
    if i < 0 {
        corr_piece_apply(s, acc)
    } else {
        scan_corr(s.skip(i + 1), corr_piece_apply(s.take(i), acc))
    }
}

#[via_fn]
proof fn scan_corr_decreases(s: Seq<char>, acc: (Option<Seq<char>>, Option<Seq<char>>)) {
    crate::strutil::lemma_find_char_spec_bound(s, ';');
}

/// What correlation id and type a span yields. When the trace state carries
/// an `X-INSTANA-L` entry, its first comma-separated segment names the
/// sampling level after its last `:`; only level `"1"` with a second
/// segment present yields correlation data, scanned from that segment's
/// `;`-separated sub-fields. Without the trace-state entry, the attributes
/// `INTERNAL_TAG_CRID` and `INTERNAL_TAG_CRTP` supply the values directly.
pub open spec fn spec_correlation(span: SpanData) -> (Option<Seq<char>>, Option<Seq<char>>) {
    match trace_state_get(span.span_context.trace_state@, "X-INSTANA-L"@) {
        Some(value) => {
            let i1 = find_char_spec(value, ',');
            let p0 = trim_spec(
                if i1 < 0 {
                    value
                } else {
                    value.take(i1)
                },
            );
            let level = trim_spec(after_last_colon(p0));
            if level == "1"@ && i1 >= 0 {
                let rest = value.skip(i1 + 1);
                let i2 = find_char_spec(rest, ',');
                let p1 = trim_spec(
                    if i2 < 0 {
                        rest
                    } else {
                        rest.take(i2)
                    },
                );
                scan_corr(p1, (None, None))
            } else {
                (None, None)
            }
        },
        None => {
            (
                match attr_lookup(span.attributes@, "INTERNAL_TAG_CRID"@) {
                    Some(v) => Some(attr_display(v)),
                    None => None,
                },
                match attr_lookup(span.attributes@, "INTERNAL_TAG_CRTP"@) {
                    Some(v) => Some(attr_display(v)),
                    None => None,
                },
            )
        },
    }
}

/// View of an optional owned string.
pub open spec fn opt_str_view(o: Option<String>) -> Option<Seq<char>> {
    match o {
        Some(s) => Some(s@),
        None => None,
    }
}

/// Whether the span's status is the one sentinel error that sets the error
/// count.
pub open spec fn is_sentinel_error(st: Status) -> bool {
    st matches Status::Error { description } && description@ == "something went wrong"@
}

/// Everything the `otel` block must hold of the span.
pub open spec fn otel_section_ok(o: InstanaOtel, span: SpanData) -> bool {
    &&& o.scope_name@ == span.instrumentation_scope.name@
    &&& (match (o.scope_version, span.instrumentation_scope.version) {
        (Some(a), Some(b)) => a@ == b@,
        (None, None) => true,
        _ => false,
    })
    &&& o.dropped_events_count == span.events.dropped_count
    &&& o.dropped_links_count == span.links.dropped_count
    &&& o.dropped_attributes_count as int == (span.dropped_attributes_count as int
        + sum_event_dropped(span.events.events@) + sum_link_dropped(span.links.links@))
        % 0x100000000
    &&& (match span.status {
        Status::Unset => o.status_code is None && o.status_description is None,
        Status::Okay => (o.status_code matches Some(c) && c@ == "StatusCode::STATUS_OK"@)
            && o.status_description is None,
        Status::Error { description } => (o.status_code matches Some(c) && c@
            == "StatusCode::STATUS_ERROR"@) && (o.status_description matches Some(d) && d@
            == description@),
    })
}

/// Everything the `data` section must hold of the span and resource:
/// each collection map when non-empty, the `otel` block, the sdk name and
/// type, and the service name.
pub open spec fn data_section_ok(d: InstanaSpanData, res: Seq<KeyValue>, span: SpanData) -> bool {
    &&& (match d.sdk.custom.tags.attributes {
        Some(m) => span.attributes@.len() > 0 && map_view(m@) == attr_map_spec(span.attributes@),
        None => span.attributes@.len() == 0,
    })
    &&& (match d.sdk.custom.tags.resource {
        Some(m) => resource_map_spec(res).len() > 0 && map_view(m@) == resource_map_spec(res),
        None => resource_map_spec(res).len() == 0,
    })
    &&& (match d.sdk.custom.tags.events {
        Some(m) => span.events.events@.len() > 0 && map_view(m@) == events_map_spec(
            span.events.events@,
        ),
        None => span.events.events@.len() == 0,
    })
    &&& (match d.sdk.custom.tags.links {
        Some(l) => span.links.links@.len() > 0 && links_view(l@) == links_spec(
            span.links.links@,
        ),
        None => span.links.links@.len() == 0,
    })
    &&& otel_section_ok(d.sdk.custom.tags.otel, span)
    &&& d.sdk.name@ == span.name@
    &&& d.sdk.span_type@ == kind_type_str(span.span_kind)
    &&& (match attr_lookup(res, "service.name"@) {
        Some(AttrValue::Text(s)) => d.service matches Some(x) && x@ == s@,
        _ => d.service is None,
    })
}

/// Everything the `f` section must hold of the resource.
pub open spec fn from_section_ok(f: InstanaSpanFrom, res: Seq<KeyValue>) -> bool {
    &&& (match attr_lookup(res, "process.pid"@) {
        Some(AttrValue::I64(pid)) => f.process_id == Some(pid),
        _ => f.process_id is None,
    })
    &&& (match attr_lookup(res, "host.id"@) {
        Some(AttrValue::Text(s)) => f.host_id matches Some(h) && h@ == s@,
        _ => f.host_id is None,
    })
}

/// Everything a successfully encoded wire span must hold of its inputs.
pub open spec fn wire_span_ok(w: InstanaSpan, res: Seq<KeyValue>, span: SpanData) -> bool {
    &&& w.trace_id@ == hex_pad(span.span_context.trace_id as nat, 32).subrange(16, 32)
    &&& w.span_id@ == hex_pad(span.span_context.span_id as nat, 16)
    &&& w.name@ == "sdk"@
    &&& w.kind as int == kind_code(span.span_kind)
    &&& (match w.parent_span_id {
        Some(p) => span.parent_span_id != 0 && p@ == hex_pad(span.parent_span_id as nat, 16),
        None => span.parent_span_id == 0,
    })
    &&& (match w.long_trace_id {
        Some(lt) => is_entry_kind(span.span_kind) && span.span_context.trace_id != 0 && lt@
            == hex_pad(span.span_context.trace_id as nat, 32),
        None => !(is_entry_kind(span.span_kind) && span.span_context.trace_id != 0),
    })
    &&& w.synthetic == (attr_lookup(span.attributes@, "X-INSTANA-SYNTHETIC"@) == Some(
        AttrValue::I64(1),
    ))
    &&& w.timestamp == ((span.start_time_unix_nanos / 1000000) as u64)
    &&& w.duration == (((span.end_time_unix_nanos - span.start_time_unix_nanos) / 1000000) as u64)
    &&& (match w.error_count {
        Some(c) => c == 1 && is_sentinel_error(span.status),
        None => !is_sentinel_error(span.status),
    })
    &&& opt_str_view(w.correlation_id) == spec_correlation(span).0
    &&& opt_str_view(w.correlation_type) == spec_correlation(span).1
    &&& (match attr_lookup(span.attributes@, "INTERNAL_TAG_TP"@) {
        Some(AttrValue::Bool(b)) => w.trace_parent == Some(b),
        _ => w.trace_parent is None,
    })
    &&& data_section_ok(w.data, res, span)
    &&& from_section_ok(w.from, res)
}

/// What a successful batch serialization produces: the JSON array of wire
/// spans, one per input span, each of which satisfies `wire_span_ok`.
pub open spec fn batch_output_ok(s: Seq<char>, res: Seq<KeyValue>, batch: Seq<SpanData>) -> bool {
    exists|ws: Seq<InstanaSpan>|
        ws.len() == batch.len() && (forall|i: int|
            0 <= i < ws.len() ==> wire_span_ok(#[trigger] ws[i], res, batch[i])) && s
            == #[trigger] json_of_batch(ws)
}

/// The backend kind name for a span kind.
pub fn convert_span_kind_to_string(span_kind: &SpanKind) -> (r: String)
    ensures
        r@ == kind_type_str(*span_kind),
{
    match span_kind {
        SpanKind::Producer => String::from_str("entry"),
        SpanKind::Server => String::from_str("entry"),
        SpanKind::Internal => String::from_str("intermediate"),
        SpanKind::Client => String::from_str("exit"),
        SpanKind::Consumer => String::from_str("exit"),
    }
}

/// The wire tag value for a typed attribute value.
pub fn convert_value_to_json(value: &AttrValue) -> (r: TagValue)
    ensures
        r@ == tag_of_attr(*value),
{
    match value {
        AttrValue::Bool(b) => TagValue::Bool(*b),
        AttrValue::I64(i) => TagValue::Int(*i),
        AttrValue::F64(fr) => TagValue::Num(fr.json.clone()),
        AttrValue::Text(s) => TagValue::Text(s.clone()),
        AttrValue::Array(s) => TagValue::Text(s.clone()),
    }
}

/// The display text of a typed attribute value.
fn attr_value_to_string(v: &AttrValue) -> (r: String)
    ensures
        r@ == attr_display(*v),
{
    match v {
        AttrValue::Bool(b) => {
            if *b {
                String::from_str("true")
            } else {
                String::from_str("false")
            }
        },
        AttrValue::I64(i) => chars_to_string(&format_i64(*i)),
        AttrValue::F64(fr) => fr.text.clone(),
        AttrValue::Text(s) => s.clone(),
        AttrValue::Array(s) => s.clone(),
    }
}

/// Builds the tag map of an attribute sequence.
fn build_tag_map(attrs: &Vec<KeyValue>) -> (r: Vec<Entry<TagValue>>)
    ensures
        map_view(r@) == attr_map_spec(attrs@),
{
    let mut m: Vec<Entry<TagValue>> = Vec::new();
    let n: usize = attrs.len();
    let mut i: usize = 0;
    proof {
        assert(attrs@.take(0) =~= Seq::<KeyValue>::empty());
        assert(map_view(m@) =~= attr_map_spec(attrs@.take(0)));
    }
    while i < n
        invariant
            n == attrs@.len(),
            i <= n,
            map_view(m@) == attr_map_spec(attrs@.take(i as int)),
        decreases n - i,
    {
        let tv = convert_value_to_json(&attrs[i].value);
        upsert(&mut m, attrs[i].key.as_str(), tv);
        proof {
            assert(attrs@.take(i + 1).drop_last() =~= attrs@.take(i as int));
            assert(attrs@.take(i + 1).last() == attrs@[i as int]);
        }
        i = i + 1;
    }
    proof {
        assert(attrs@.take(n as int) =~= attrs@);
    }
    m
}

/// Builds the resource map, leaving out every key that contains
/// `service.`.
fn build_resource_map(attrs: &Vec<KeyValue>) -> (r: Vec<Entry<String>>)
    ensures
        map_view(r@) == resource_map_spec(attrs@),
{
    let mut m: Vec<Entry<String>> = Vec::new();
    let n: usize = attrs.len();
    let mut i: usize = 0;
    proof {
        assert(attrs@.take(0) =~= Seq::<KeyValue>::empty());
        assert(map_view(m@) =~= resource_map_spec(attrs@.take(0)));
    }
    while i < n
        invariant
            n == attrs@.len(),
            i <= n,
            map_view(m@) == resource_map_spec(attrs@.take(i as int)),
        decreases n - i,
    {
        let key_chars = str_to_chars(attrs[i].key.as_str());
        if !contains_str(&key_chars, "service.") {
            let sv = attr_value_to_string(&attrs[i].value);
            upsert(&mut m, attrs[i].key.as_str(), sv);
        }
        proof {
            assert(attrs@.take(i + 1).drop_last() =~= attrs@.take(i as int));
            assert(attrs@.take(i + 1).last() == attrs@[i as int]);
        }
        i = i + 1;
    }
    proof {
        assert(attrs@.take(n as int) =~= attrs@);
    }
    m
}

/// Builds the events map; fails on the first event whose timestamp lies
/// before the epoch.
fn build_events_map(events: &Vec<SpanEvent>) -> (r: Result<Vec<Entry<InstanaEvent>>, EncodeError>)
    ensures
        match r {
            Ok(m) => !has_negative_event_time(events@) && map_view(m@) == events_map_spec(
                events@,
            ),
            Err(e) => has_negative_event_time(events@) && e == EncodeError::TimestampOutOfRange,
        },
{
    let mut m: Vec<Entry<InstanaEvent>> = Vec::new();
    let n: usize = events.len();
    let mut i: usize = 0;
    proof {
        assert(events@.take(0) =~= Seq::<SpanEvent>::empty());
        assert(map_view(m@) =~= events_map_spec(events@.take(0)));
    }
    while i < n
        invariant
            n == events@.len(),
            i <= n,
            map_view(m@) == events_map_spec(events@.take(i as int)),
            forall|j: int| 0 <= j < i ==> (#[trigger] events@[j]).timestamp_unix_nanos >= 0,
        decreases n - i,
    {
        let e = &events[i];
        if e.timestamp_unix_nanos < 0 {
            return Err(EncodeError::TimestampOutOfRange);
        }
        let ms: u128 = (e.timestamp_unix_nanos as u128) / 1000000;
        let ev = InstanaEvent {
            value: build_tag_map(&e.attributes),
            timestamp: chars_to_string(&format_u128(ms)),
        };
        proof {
            assert(ev@ == event_v_of(events@[i as int]));
        }
        upsert(&mut m, e.name.as_str(), ev);
        proof {
            assert(events@.take(i + 1).drop_last() =~= events@.take(i as int));
            assert(events@.take(i + 1).last() == events@[i as int]);
        }
        i = i + 1;
    }
    proof {
        assert(events@.take(n as int) =~= events@);
        if has_negative_event_time(events@) {
            let j = choose|j: int|
                0 <= j < events@.len() && (#[trigger] events@[j]).timestamp_unix_nanos < 0;
            assert(false);
        }
    }
    Ok(m)
}

/// Builds the wire links, in order.
fn build_links(links: &Vec<SpanLink>) -> (r: Vec<InstanaLink>)
    ensures
        links_view(r@) == links_spec(links@),
{
    let mut out: Vec<InstanaLink> = Vec::new();
    let n: usize = links.len();
    let mut i: usize = 0;
    while i < n
        invariant
            n == links@.len(),
            i <= n,
            out@.len() == i,
            forall|j: int| 0 <= j < i ==> (#[trigger] out@[j])@ == link_v_of(links@[j]),
        decreases n - i,
    {
        let l = &links[i];
        let full = format_trace_id(l.span_context.trace_id);
        proof {
            crate::ids::lemma_hex_pad_val(l.span_context.trace_id as nat, 32);
        }
        let link = InstanaLink {
            trace_id: chars_to_string(&subvec(&full, 16, 32)),
            span_id: chars_to_string(&format_span_id(l.span_context.span_id)),
            attributes: build_tag_map(&l.attributes),
        };
        proof {
            assert(link@ == link_v_of(links@[i as int]));
        }
        out.push(link);
        i = i + 1;
    }
    proof {
        assert(links_view(out@) =~= links_spec(links@));
    }
    out
}

/// The total dropped-attribute count: the span's own counter plus every
/// event's and every link's, wrapping as a 32-bit counter.
fn dropped_attr_total(span: &SpanData) -> (r: u32)
    ensures
        r as int == (span.dropped_attributes_count as int + sum_event_dropped(span.events.events@)
            + sum_link_dropped(span.links.links@)) % 0x100000000,
{
    let ghost m: int = 0x100000000;
    let mut acc: u64 = span.dropped_attributes_count as u64;
    proof {
        lemma_small_mod(span.dropped_attributes_count as nat, 0x100000000nat);
    }
    let events = &span.events.events;
    let n: usize = events.len();
    let mut i: usize = 0;
    proof {
        assert(events@.take(0) =~= Seq::<SpanEvent>::empty());
    }
    while i < n
        invariant
            n == events@.len(),
            i <= n,
            acc < 0x100000000,
            acc as int == (span.dropped_attributes_count as int + sum_event_dropped(
                events@.take(i as int),
            )) % 0x100000000,
        decreases n - i,
    {
        let d: u64 = events[i].dropped_attributes_count as u64;
        let ghost base: int = span.dropped_attributes_count as int + sum_event_dropped(
            events@.take(i as int),
        );
        acc = (acc + d) % 0x100000000;
        proof {
            lemma_small_mod(d as nat, 0x100000000nat);
            lemma_add_mod_noop(base, d as int, 0x100000000);
            assert(events@.take(i + 1).drop_last() =~= events@.take(i as int));
            assert(events@.take(i + 1).last() == events@[i as int]);
        }
        i = i + 1;
    }
    proof {
        assert(events@.take(n as int) =~= events@);
    }
    let links = &span.links.links;
    let ln: usize = links.len();
    let mut j: usize = 0;
    let ghost ebase: int = span.dropped_attributes_count as int + sum_event_dropped(events@);
    proof {
        assert(links@.take(0) =~= Seq::<SpanLink>::empty());
    }
    while j < ln
        invariant
            ln == links@.len(),
            j <= ln,
            acc < 0x100000000,
            ebase == span.dropped_attributes_count as int + sum_event_dropped(
                span.events.events@,
            ),
            acc as int == (ebase + sum_link_dropped(links@.take(j as int))) % 0x100000000,
        decreases ln - j,
    {
        let d: u64 = links[j].dropped_attributes_count as u64;
        let ghost base: int = ebase + sum_link_dropped(links@.take(j as int));
        acc = (acc + d) % 0x100000000;
        proof {
            lemma_small_mod(d as nat, 0x100000000nat);
            lemma_add_mod_noop(base, d as int, 0x100000000);
            assert(links@.take(j + 1).drop_last() =~= links@.take(j as int));
            assert(links@.take(j + 1).last() == links@[j as int]);
        }
        j = j + 1;
    }
    proof {
        assert(links@.take(ln as int) =~= links@);
    }
    acc as u32
}

/// First-match lookup in a span's trace state.
fn trace_state_lookup(ts: &Vec<TraceStateEntry>, key: &str) -> (r: Option<String>)
    ensures
        match r {
            Some(v) => trace_state_get(ts@, key@) == Some(v@),
            None => trace_state_get(ts@, key@) is None,
        },
{
    let n: usize = ts.len();
    let mut i: usize = 0;
    proof {
        assert(ts@.skip(0) =~= ts@);
    }
    while i < n
        invariant
            n == ts@.len(),
            i <= n,
            trace_state_get(ts@, key@) == trace_state_get(ts@.skip(i as int), key@),
        decreases n - i,
    {
        proof {
            assert(ts@.skip(i as int)[0] == ts@[i as int]);
            assert(ts@.skip(i as int).drop_first() =~= ts@.skip(i + 1));
        }
        if str_eq(ts[i].key.as_str(), key) {
            return Some(ts[i].value.clone());
        }
        i = i + 1;
    }
    proof {
        assert(ts@.skip(n as int) =~= Seq::<TraceStateEntry>::empty());
    }
    None
}

/// Removes every leading occurrence of `p` from `v`.
fn strip_prefix_all(v: Vec<char>, p: &str) -> (r: Vec<char>)
    requires
        p@.len() > 0,
    ensures
        r@ == strip_repeated_prefix(v@, p@),
    decreases v@.len(),
{
    if starts_with_str(&v, p) {
        let plen: usize = p.unicode_len();
        let rest = subvec(&v, plen, v.len());
        proof {
            assert(rest@ =~= v@.skip(plen as int));
        }
        strip_prefix_all(rest, p)
    } else {
        v
    }
}

/// Applies one `;`-separated sub-field to the accumulated correlation data.
fn corr_piece_apply_exec(raw: &Vec<char>, crid: Option<String>, crtp: Option<String>) -> (r: (
    Option<String>,
    Option<String>,
))
    ensures
        (opt_str_view(r.0), opt_str_view(r.1)) == corr_piece_apply(
            raw@,
            (opt_str_view(crid), opt_str_view(crtp)),
        ),
{
    proof {
        reveal_strlit("correlationType=");
        reveal_strlit("correlationId=");
    }
    let piece = trim_chars(raw);
    if starts_with_str(&piece, "correlationType=") {
        let stripped = strip_prefix_all(piece, "correlationType=");
        (crid, Some(chars_to_string(&stripped)))
    } else if starts_with_str(&piece, "correlationId=") {
        let stripped = strip_prefix_all(piece, "correlationId=");
        (Some(chars_to_string(&stripped)), crtp)
    } else {
        (crid, crtp)
    }
}

/// Scans the `;`-separated sub-fields of `v` in order.
fn scan_corr_exec(v: Vec<char>, crid: Option<String>, crtp: Option<String>) -> (r: (
    Option<String>,
    Option<String>,
))
    ensures
        (opt_str_view(r.0), opt_str_view(r.1)) == scan_corr(
            v@,
            (opt_str_view(crid), opt_str_view(crtp)),
        ),
    decreases v@.len(),
{
    match find_char(&v, ';') {
        None => corr_piece_apply_exec(&v, crid, crtp),
        Some(i) => {
            let piece = subvec(&v, 0, i);
            proof {
                assert(piece@ =~= v@.take(i as int));
            }
            let applied = corr_piece_apply_exec(&piece, crid, crtp);
            let n: usize = v.len();
            let rest = subvec(&v, i + 1, n);
            proof {
                assert(rest@ =~= v@.skip(i + 1));
            }
            scan_corr_exec(rest, applied.0, applied.1)
        },
    }
}

/// Extracts correlation id and type from the span, either from the
/// `X-INSTANA-L` trace-state entry or, failing that, from the
/// `INTERNAL_TAG_CRID` / `INTERNAL_TAG_CRTP` attributes.
pub fn extract_correlation_data(span: &SpanData) -> (r: (Option<String>, Option<String>))
    ensures
        (opt_str_view(r.0), opt_str_view(r.1)) == spec_correlation(*span),
{
    match trace_state_lookup(&span.span_context.trace_state, "X-INSTANA-L") {
        Some(value) => {
            let v = str_to_chars(value.as_str());
            let i1 = find_char(&v, ',');
            let p0_raw = match i1 {
                Some(i) => subvec(&v, 0, i),
                None => subvec(&v, 0, v.len()),
            };
            proof {
                match i1 {
                    Some(i) => {
                        assert(p0_raw@ =~= v@.take(i as int));
                    },
                    None => {
                        assert(p0_raw@ =~= v@);
                    },
                }
            }
            let p0 = trim_chars(&p0_raw);
            let p0n: usize = p0.len();
            let after = match find_last_char(&p0, ':') {
                Some(j) => subvec(&p0, j + 1, p0n),
                None => subvec(&p0, 0, p0n),
            };
            proof {
                match find_last_char_spec(p0@, ':') {
                    j if j < 0 => {
                        assert(after@ =~= p0@);
                    },
                    _ => {
                        assert(after@ =~= p0@.skip(find_last_char_spec(p0@, ':') + 1));
                    },
                }
                assert(after@ == after_last_colon(p0@));
            }
            let level = trim_chars(&after);
            let is_one = chars_eq_str(&level, "1");
            if is_one {
                match i1 {
                    Some(i) => {
                        let rest = subvec(&v, i + 1, v.len());
                        proof {
                            assert(rest@ =~= v@.skip(i + 1));
                        }
                        let i2 = find_char(&rest, ',');
                        let p1_raw = match i2 {
                            Some(k) => subvec(&rest, 0, k),
                            None => subvec(&rest, 0, rest.len()),
                        };
                        proof {
                            match i2 {
                                Some(k) => {
                                    assert(p1_raw@ =~= rest@.take(k as int));
                                },
                                None => {
                                    assert(p1_raw@ =~= rest@);
                                },
                            }
                        }
                        let p1 = trim_chars(&p1_raw);
                        scan_corr_exec(p1, None, None)
                    },
                    None => (None, None),
                }
            } else {
                (None, None)
            }
        },
        None => {
            let crid = match crate::span_data::lookup_attribute(
                &span.attributes,
                "INTERNAL_TAG_CRID",
            ) {
                Ok(val) => Some(attr_value_to_string(&val)),
                Err(_) => None,
            };
            let crtp = match crate::span_data::lookup_attribute(
                &span.attributes,
                "INTERNAL_TAG_CRTP",
            ) {
                Ok(val) => Some(attr_value_to_string(&val)),
                Err(_) => None,
            };
            (crid, crtp)
        },
    }
}

/// Builds the `f` section from the exporter's resource context.
pub fn build_from_section(exporter: &Exporter) -> (r: InstanaSpanFrom)
    ensures
        from_section_ok(r, exporter.resource_.attributes@),
{
    let process_id = match exporter.get_process_pid() {
        Some(AttrValue::I64(pid)) => Some(pid),
        _ => None,
    };
    let host_id = match exporter.get_host_id() {
        Some(AttrValue::Text(s)) => Some(s),
        _ => None,
    };
    InstanaSpanFrom { process_id, host_id }
}

/// Builds the `data` section: collection maps, the `otel` block, sdk name
/// and type, and the service name. Fails only when an event's timestamp
/// lies before the epoch.
#[verifier::rlimit(60)]
pub fn build_data_section(exporter: &Exporter, span: &SpanData) -> (r: Result<
    InstanaSpanData,
    EncodeError,
>)
    ensures
        match r {
            Ok(d) => !has_negative_event_time(span.events.events@) && data_section_ok(
                d,
                exporter.resource_.attributes@,
                *span,
            ),
            Err(e) => has_negative_event_time(span.events.events@) && e
                == EncodeError::TimestampOutOfRange,
        },
{
    let attributes = if span.attributes.len() > 0 {
        Some(build_tag_map(&span.attributes))
    } else {
        None
    };
    let res_map = build_resource_map(&exporter.resource_.attributes);
    let ghost res_map_v = map_view(res_map@);
    let resource = if res_map.len() > 0 {
        Some(res_map)
    } else {
        None
    };
    let events = if span.events.events.len() > 0 {
        match build_events_map(&span.events.events) {
            Ok(m) => Some(m),
            Err(e) => {
                return Err(e);
            },
        }
    } else {
        None
    };
    let links = if span.links.links.len() > 0 {
        Some(build_links(&span.links.links))
    } else {
        None
    };
    let dropped_attributes_count = dropped_attr_total(span);
    let (status_code, status_description) = match &span.status {
        Status::Okay => (Some(String::from_str("StatusCode::STATUS_OK")), None),
        Status::Error { description } => (
            Some(String::from_str("StatusCode::STATUS_ERROR")),
            Some(description.clone()),
        ),
        Status::Unset => (None, None),
    };
    let scope_version = match &span.instrumentation_scope.version {
        Some(vsn) => Some(vsn.clone()),
        None => None,
    };
    let otel = InstanaOtel {
        scope_name: span.instrumentation_scope.name.clone(),
        scope_version,
        dropped_events_count: span.events.dropped_count,
        dropped_links_count: span.links.dropped_count,
        dropped_attributes_count,
        status_code,
        status_description,
    };
    let tags = InstanaTags { attributes, resource, events, links, otel };
    let custom = InstanaCustom { tags };
    let sdk = InstanaSdk {
        name: span.name.clone(),
        span_type: convert_span_kind_to_string(&span.span_kind),
        custom,
    };
    let service = match exporter.get_service_name() {
        Some(AttrValue::Text(name)) => Some(name),
        _ => None,
    };
    Ok(InstanaSpanData { sdk, service })
}

/// Converts one span record to its wire span.
#[verifier::rlimit(60)]
pub fn convert_to_instana_span(exporter: &Exporter, span: &SpanData) -> (r: Result<
    InstanaSpan,
    EncodeError,
>)
    ensures
        match r {
            Ok(w) => spec_encode_err(*span) is None && wire_span_ok(
                w,
                exporter.resource_.attributes@,
                *span,
            ),
            Err(e) => spec_encode_err(*span) == Some(e),
        },
{
    let tid = span.span_context.trace_id;
    let full = format_trace_id(tid);
    proof {
        crate::ids::lemma_hex_pad_val(tid as nat, 32);
    }
    let trace_id = chars_to_string(&subvec(&full, 16, 32));
    let span_id = chars_to_string(&format_span_id(span.span_context.span_id));
    let kind_value: i32 = match span.span_kind {
        SpanKind::Server => 1,
        SpanKind::Producer => 1,
        SpanKind::Internal => 3,
        SpanKind::Client => 2,
        SpanKind::Consumer => 2,
    };
    let parent_id = if span.parent_span_id != 0 {
        Some(chars_to_string(&format_span_id(span.parent_span_id)))
    } else {
        None
    };
    let is_entry = match span.span_kind {
        SpanKind::Server => true,
        SpanKind::Producer => true,
        _ => false,
    };
    let long_trace_id = if is_entry && tid != 0 {
        Some(chars_to_string(&full))
    } else {
        None
    };
    let synthetic = match crate::span_data::lookup_attribute(
        &span.attributes,
        "X-INSTANA-SYNTHETIC",
    ) {
        Ok(AttrValue::I64(v)) => v == 1,
        _ => false,
    };
    if span.start_time_unix_nanos < 0 {
        return Err(EncodeError::TimestampOutOfRange);
    }
    if span.end_time_unix_nanos < span.start_time_unix_nanos {
        return Err(EncodeError::NegativeDuration);
    }
    let start_ms: u128 = (span.start_time_unix_nanos as u128) / 1000000;
    let ts: u64 = #[verifier::truncate] (start_ms as u64);
    let diff: u128 = (span.end_time_unix_nanos as u128) - (span.start_time_unix_nanos as u128);
    let dur_ms: u128 = diff / 1000000;
    let duration: u64 = #[verifier::truncate] (dur_ms as u64);
    proof {
        assert(start_ms as int == span.start_time_unix_nanos / 1000000);
        assert(dur_ms as int == (span.end_time_unix_nanos - span.start_time_unix_nanos)
            / 1000000);
    }
    let error_count: Option<i32> = match &span.status {
        Status::Error { description } => {
            if str_eq(description.as_str(), "something went wrong") {
                Some(1)
            } else {
                None
            }
        },
        _ => None,
    };
    let (correlation_id, correlation_type) = extract_correlation_data(span);
    let trace_parent = match crate::span_data::lookup_attribute(
        &span.attributes,
        "INTERNAL_TAG_TP",
    ) {
        Ok(AttrValue::Bool(b)) => Some(b),
        _ => None,
    };
    let data = match build_data_section(exporter, span) {
        Ok(d) => d,
        Err(e) => {
            return Err(e);
        },
    };
    let from = build_from_section(exporter);
    Ok(
        InstanaSpan {
            parent_span_id: parent_id,
            trace_id,
            span_id,
            name: String::from_str("sdk"),
            kind: kind_value,
            timestamp: ts,
            duration,
            synthetic,
            long_trace_id,
            error_count,
            correlation_id,
            correlation_type,
            trace_parent,
            data,
            from,
        },
    )
}

/// Encodes each span of the batch in order and renders the whole batch as
/// one JSON array; the first failing span aborts the batch with its error.
#[verifier::rlimit(100)]
pub fn serialize_batch(exporter: &Exporter, batch: &Vec<SpanData>) -> (r: Result<
    String,
    EncodeError,
>)
    ensures
        match r {
            Ok(s) => (forall|i: int|
                0 <= i < batch@.len() ==> spec_encode_err(#[trigger] batch@[i]) is None)
                && batch_output_ok(s@, exporter.resource_.attributes@, batch@),
            Err(e) => exists|i: int|
                0 <= i < batch@.len() && spec_encode_err(#[trigger] batch@[i]) == Some(e) && (
                forall|j: int| 0 <= j < i ==> spec_encode_err(#[trigger] batch@[j]) is None),
        },
{
    let ghost res = exporter.resource_.attributes@;
    let mut spans: Vec<InstanaSpan> = Vec::new();
    let n: usize = batch.len();
    let mut i: usize = 0;
    while i < n
        invariant
            n == batch@.len(),
            i <= n,
            res == exporter.resource_.attributes@,
            spans@.len() == i,
            forall|j: int| 0 <= j < i ==> wire_span_ok(#[trigger] spans@[j], res, batch@[j]),
            forall|j: int| 0 <= j < i ==> spec_encode_err(#[trigger] batch@[j]) is None,
        decreases n - i,
    {
        match convert_to_instana_span(exporter, &batch[i]) {
            Ok(w) => {
                let ghost wv = w;
                spans.push(w);
                proof {
                    assert(spans@[i as int] == wv);
                    assert(wire_span_ok(spans@[i as int], res, batch@[i as int]));
                }
            },
            Err(e) => {
                proof {
                    assert(0 <= (i as int) && (i as int) < batch@.len() && spec_encode_err(
                        batch@[i as int],
                    ) == Some(e) && (forall|j: int|
                        0 <= j < i as int ==> spec_encode_err(#[trigger] batch@[j]) is None));
                }
                return Err(e);
            },
        }
        i = i + 1;
    }
    let mut out: Vec<char> = Vec::new();
    emit_batch(&mut out, &spans);
    let s = chars_to_string(&out);
    proof {
        assert(s@ == json_of_batch(spans@));
        assert(batch_output_ok(s@, res, batch@)) by {
            assert(spans@.len() == batch@.len() && (forall|k: int|
                0 <= k < spans@.len() ==> wire_span_ok(#[trigger] spans@[k], res, batch@[k])) && s@
                == json_of_batch(spans@));
        };
    }
    Ok(s)
}

} // verus!
