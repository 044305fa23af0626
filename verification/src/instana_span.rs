//! The wire span model: the exact shape of the JSON document the backend
//! receives, together with the verified emitter that renders it.
//!
//! Every optional field is omitted entirely when absent; maps render their
//! entries in order.

use vstd::prelude::*;
use crate::jsonout::{
    emit_i32, emit_i64, emit_jbool, emit_jstr, emit_u32, emit_u64, jbool, jstr,
    lemma_char_seq_add_assoc,
};
use crate::numfmt::{dec_int, dec_nat};
use crate::strutil::push_str_chars;
use crate::vecmap::{map_view, Entry};

verus! {

/// A JSON-compatible tag value: `Num` carries a ready-made JSON number
/// token and is emitted verbatim.
#[derive(Debug)]
pub enum TagValue {
    Bool(bool),
    Int(i64),
    Num(String),
    Text(String),
}

/// Mathematical view of a tag value.
pub enum TagValueV {
    Bool(bool),
    Int(int),
    Num(Seq<char>),
    Text(Seq<char>),
}

impl View for TagValue {
    type V = TagValueV;

    open spec fn view(&self) -> TagValueV {
        match self {
            TagValue::Bool(b) => TagValueV::Bool(*b),
            TagValue::Int(i) => TagValueV::Int(*i as int),
            TagValue::Num(s) => TagValueV::Num(s@),
            TagValue::Text(s) => TagValueV::Text(s@),
        }
    }
}

/// One event as the wire document carries it.
#[derive(Debug)]
pub struct InstanaEvent {
    pub value: Vec<Entry<TagValue>>,
    pub timestamp: String,
}

/// Mathematical view of a wire event.
pub struct InstanaEventV {
    pub value: Seq<(Seq<char>, TagValueV)>,
    pub timestamp: Seq<char>,
}

impl View for InstanaEvent {
    type V = InstanaEventV;

    open spec fn view(&self) -> InstanaEventV {
        InstanaEventV { value: map_view(self.value@), timestamp: self.timestamp@ }
    }
}

/// One link as the wire document carries it.
#[derive(Debug)]
pub struct InstanaLink {
    pub trace_id: String,
    pub span_id: String,
    pub attributes: Vec<Entry<TagValue>>,
}

/// Mathematical view of a wire link.
pub struct InstanaLinkV {
    pub trace_id: Seq<char>,
    pub span_id: Seq<char>,
    pub attributes: Seq<(Seq<char>, TagValueV)>,
}

impl View for InstanaLink {
    type V = InstanaLinkV;

    open spec fn view(&self) -> InstanaLinkV {
        InstanaLinkV {
            trace_id: self.trace_id@,
            span_id: self.span_id@,
            attributes: map_view(self.attributes@),
        }
    }
}

pub open spec fn links_view(s: Seq<InstanaLink>) -> Seq<InstanaLinkV> {
    Seq::new(s.len(), |i: int| s[i]@)
}

/// The `otel` block: instrumentation scope, dropped counts and status.
#[derive(Debug)]
pub struct InstanaOtel {
    pub scope_name: String,
    pub scope_version: Option<String>,
    pub dropped_events_count: u32,
    pub dropped_links_count: u32,
    pub dropped_attributes_count: u32,
    pub status_code: Option<String>,
    pub status_description: Option<String>,
}

/// The custom tag maps plus the `otel` block.
#[derive(Debug)]
pub struct InstanaTags {
    pub attributes: Option<Vec<Entry<TagValue>>>,
    pub resource: Option<Vec<Entry<String>>>,
    pub events: Option<Vec<Entry<InstanaEvent>>>,
    pub links: Option<Vec<InstanaLink>>,
    pub otel: InstanaOtel,
}

#[derive(Debug)]
pub struct InstanaCustom {
    pub tags: InstanaTags,
}

#[derive(Debug)]
pub struct InstanaSdk {
    pub name: String,
    pub span_type: String,
    pub custom: InstanaCustom,
}

#[derive(Debug)]
pub struct InstanaSpanData {
    pub sdk: InstanaSdk,
    pub service: Option<String>,
}

/// The `f` (from) section: process id and host id.
#[derive(Debug)]
pub struct InstanaSpanFrom {
    pub process_id: Option<i64>,
    pub host_id: Option<String>,
}

/// The wire span: field names in the JSON document are the short codes
/// (`p`, `t`, `s`, `n`, `k`, `ts`, `d`, `sy`, `lt`, `ec`, `crid`, `crtp`,
/// `tp`, `data`, `f`).
#[derive(Debug)]
pub struct InstanaSpan {
    pub parent_span_id: Option<String>,
    pub trace_id: String,
    pub span_id: String,
    pub name: String,
    pub kind: i32,
    pub timestamp: u64,
    pub duration: u64,
    pub synthetic: bool,
    pub long_trace_id: Option<String>,
    pub error_count: Option<i32>,
    pub correlation_id: Option<String>,
    pub correlation_type: Option<String>,
    pub trace_parent: Option<bool>,
    pub data: InstanaSpanData,
    pub from: InstanaSpanFrom,
}

/// The JSON token for one tag value.
pub open spec fn json_of_tag_value(v: TagValueV) -> Seq<char> {
    match v {
        TagValueV::Bool(b) => jbool(b),
        TagValueV::Int(i) => dec_int(i),
        TagValueV::Num(s) => s,
        TagValueV::Text(s) => jstr(s),
    }
}

/// The comma-separated members of a tag-value object.
pub open spec fn json_of_tag_entries(m: Seq<(Seq<char>, TagValueV)>) -> Seq<char>
    decreases m.len(),
{
    if m.len() == 0 {
        Seq::empty()
    } else if m.len() == 1 {
        jstr(m[0].0) + seq![':'] + json_of_tag_value(m[0].1)
    } else {
        json_of_tag_entries(m.drop_last()) + seq![','] + jstr(m.last().0) + seq![':']
            + json_of_tag_value(m.last().1)
    }
}

/// A JSON object holding a tag-value map.
pub open spec fn json_of_tag_map(m: Seq<(Seq<char>, TagValueV)>) -> Seq<char> {
    seq!['{'] + json_of_tag_entries(m) + seq!['}']
}

/// The comma-separated members of a string-valued object.
pub open spec fn json_of_str_entries(m: Seq<(Seq<char>, Seq<char>)>) -> Seq<char>
    decreases m.len(),
{
    if m.len() == 0 {
        Seq::empty()
    } else if m.len() == 1 {
        jstr(m[0].0) + seq![':'] + jstr(m[0].1)
    } else {
        json_of_str_entries(m.drop_last()) + seq![','] + jstr(m.last().0) + seq![':'] + jstr(
            m.last().1,
        )
    }
}

/// A JSON object holding a string-valued map.
pub open spec fn json_of_str_map(m: Seq<(Seq<char>, Seq<char>)>) -> Seq<char> {
    seq!['{'] + json_of_str_entries(m) + seq!['}']
}

/// One wire event as a JSON object.
pub open spec fn json_of_event(e: InstanaEventV) -> Seq<char> {
    "{\"value\":"@ + json_of_tag_map(e.value) + ",\"timestamp\":"@ + jstr(e.timestamp) + seq!['}']
}

/// The comma-separated members of the events object, keyed by event name.
pub open spec fn json_of_event_entries(m: Seq<(Seq<char>, InstanaEventV)>) -> Seq<char>
    decreases m.len(),
{
    if m.len() == 0 {
        Seq::empty()
    } else if m.len() == 1 {
        jstr(m[0].0) + seq![':'] + json_of_event(m[0].1)
    } else {
        json_of_event_entries(m.drop_last()) + seq![','] + jstr(m.last().0) + seq![':']
            + json_of_event(m.last().1)
    }
}

/// A JSON object holding the events map.
pub open spec fn json_of_event_map(m: Seq<(Seq<char>, InstanaEventV)>) -> Seq<char> {
    seq!['{'] + json_of_event_entries(m) + seq!['}']
}

/// One wire link as a JSON object.
pub open spec fn json_of_link(l: InstanaLinkV) -> Seq<char> {
    "{\"t\":"@ + jstr(l.trace_id) + ",\"s\":"@ + jstr(l.span_id) + ",\"attributes\":"@
        + json_of_tag_map(l.attributes) + seq!['}']
}

/// The comma-separated elements of the links array.
pub open spec fn json_of_link_elems(s: Seq<InstanaLinkV>) -> Seq<char>
    decreases s.len(),
{
    if s.len() == 0 {
        Seq::empty()
    } else if s.len() == 1 {
        json_of_link(s[0])
    } else {
        json_of_link_elems(s.drop_last()) + seq![','] + json_of_link(s.last())
    }
}

/// The links array as JSON.
pub open spec fn json_of_links(s: Seq<InstanaLinkV>) -> Seq<char> {
    seq!['['] + json_of_link_elems(s) + seq![']']
}

/// The `otel` block as JSON.
pub open spec fn json_of_otel(o: InstanaOtel) -> Seq<char> {
    "{\"scope.name\":"@ + jstr(o.scope_name@) + (match o.scope_version {
        Some(v) => ",\"scope.version\":"@ + jstr(v@),
        None => Seq::<char>::empty(),
    }) + ",\"dropped_events_count\":"@ + dec_nat(o.dropped_events_count as nat)
        + ",\"dropped_links_count\":"@ + dec_nat(o.dropped_links_count as nat)
        + ",\"dropped_attributes_count\":"@ + dec_nat(o.dropped_attributes_count as nat) + (
    match o.status_code {
        Some(c) => ",\"status_code\":"@ + jstr(c@),
        None => Seq::<char>::empty(),
    }) + (match o.status_description {
        Some(d) => ",\"status_description\":"@ + jstr(d@),
        None => Seq::<char>::empty(),
    }) + seq!['}']
}

/// The `attributes` member of the tags object, when present.
pub open spec fn tags_attributes_piece(a: Option<Vec<Entry<TagValue>>>) -> Seq<char> {
    match a {
        Some(a) => "\"attributes\":"@ + json_of_tag_map(map_view(a@)) + seq![','],
        None => Seq::<char>::empty(),
    }
}

/// The `resource` member of the tags object, when present.
pub open spec fn tags_resource_piece(r: Option<Vec<Entry<String>>>) -> Seq<char> {
    match r {
        Some(r) => "\"resource\":"@ + json_of_str_map(map_view(r@)) + seq![','],
        None => Seq::<char>::empty(),
    }
}

/// The `events` member of the tags object, when present.
pub open spec fn tags_events_piece(e: Option<Vec<Entry<InstanaEvent>>>) -> Seq<char> {
    match e {
        Some(e) => "\"events\":"@ + json_of_event_map(map_view(e@)) + seq![','],
        None => Seq::<char>::empty(),
    }
}

/// The `links` member of the tags object, when present.
pub open spec fn tags_links_piece(l: Option<Vec<InstanaLink>>) -> Seq<char> {
    match l {
        Some(l) => "\"links\":"@ + json_of_links(links_view(l@)) + seq![','],
        None => Seq::<char>::empty(),
    }
}

/// The tags object: each optional map when present, then the `otel` block.
pub open spec fn json_of_tags(t: InstanaTags) -> Seq<char> {
    seq!['{'] + tags_attributes_piece(t.attributes) + tags_resource_piece(t.resource)
        + tags_events_piece(t.events) + tags_links_piece(t.links) + "\"otel\":"@ + json_of_otel(
        t.otel,
    ) + seq!['}']
}

pub open spec fn json_of_custom(c: InstanaCustom) -> Seq<char> {
    "{\"tags\":"@ + json_of_tags(c.tags) + seq!['}']
}

pub open spec fn json_of_sdk(s: InstanaSdk) -> Seq<char> {
    "{\"name\":"@ + jstr(s.name@) + ",\"type\":"@ + jstr(s.span_type@) + ",\"custom\":"@
        + json_of_custom(s.custom) + seq!['}']
}

pub open spec fn json_of_span_data(d: InstanaSpanData) -> Seq<char> {
    "{\"sdk\":"@ + json_of_sdk(d.sdk) + (match d.service {
        Some(s) => ",\"service\":"@ + jstr(s@),
        None => Seq::<char>::empty(),
    }) + seq!['}']
}

/// The `f` section: either id may be absent.
pub open spec fn json_of_from(f: InstanaSpanFrom) -> Seq<char> {
    seq!['{'] + (match f.process_id {
        Some(e) => "\"e\":"@ + dec_int(e as int),
        None => Seq::<char>::empty(),
    }) + (if f.process_id is Some && f.host_id is Some {
        seq![',']
    } else {
        Seq::<char>::empty()
    }) + (match f.host_id {
        Some(h) => "\"h\":"@ + jstr(h@),
        None => Seq::<char>::empty(),
    }) + seq!['}']
}

/// The `p` member (parent span id) with its trailing comma, when present.
pub open spec fn span_parent_piece(p: Option<String>) -> Seq<char> {
    match p {
        Some(p) => "\"p\":"@ + jstr(p@) + seq![','],
        None => Seq::<char>::empty(),
    }
}

/// An optional string-valued member, `prefix` included, when present.
pub open spec fn opt_jstr_piece(prefix: Seq<char>, v: Option<String>) -> Seq<char> {
    match v {
        Some(s) => prefix + jstr(s@),
        None => Seq::<char>::empty(),
    }
}

/// The `ec` member, when present.
pub open spec fn span_ec_piece(ec: Option<i32>) -> Seq<char> {
    match ec {
        Some(ec) => ",\"ec\":"@ + dec_int(ec as int),
        None => Seq::<char>::empty(),
    }
}

/// The `tp` member, when present.
pub open spec fn span_tp_piece(tp: Option<bool>) -> Seq<char> {
    match tp {
        Some(tp) => ",\"tp\":"@ + jbool(tp),
        None => Seq::<char>::empty(),
    }
}

/// The whole wire span as one JSON object.
pub open spec fn json_of_span(s: InstanaSpan) -> Seq<char> {
    seq!['{'] + span_parent_piece(s.parent_span_id) + "\"t\":"@ + jstr(s.trace_id@) + ",\"s\":"@
        + jstr(s.span_id@) + ",\"n\":"@ + jstr(s.name@) + ",\"k\":"@ + dec_int(s.kind as int)
        + ",\"ts\":"@ + dec_nat(s.timestamp as nat) + ",\"d\":"@ + dec_nat(s.duration as nat)
        + ",\"sy\":"@ + jbool(s.synthetic) + opt_jstr_piece(",\"lt\":"@, s.long_trace_id)
        + span_ec_piece(s.error_count) + opt_jstr_piece(",\"crid\":"@, s.correlation_id)
        + opt_jstr_piece(",\"crtp\":"@, s.correlation_type) + span_tp_piece(s.trace_parent)
        + ",\"data\":"@ + json_of_span_data(s.data) + ",\"f\":"@ + json_of_from(s.from)
        + seq!['}']
}

/// The comma-separated elements of a span batch.
pub open spec fn json_of_span_elems(s: Seq<InstanaSpan>) -> Seq<char>
    decreases s.len(),
{
    if s.len() == 0 {
        Seq::empty()
    } else if s.len() == 1 {
        json_of_span(s[0])
    } else {
        json_of_span_elems(s.drop_last()) + seq![','] + json_of_span(s.last())
    }
}

/// A batch of wire spans as a JSON array.
pub open spec fn json_of_batch(s: Seq<InstanaSpan>) -> Seq<char> {
    seq!['['] + json_of_span_elems(s) + seq![']']
}

fn emit_tag_value(out: &mut Vec<char>, v: &TagValue)
    ensures
        final(out)@ == old(out)@ + json_of_tag_value(v@),
{
    match v {
        TagValue::Bool(b) => emit_jbool(out, *b),
        TagValue::Int(i) => emit_i64(out, *i),
        TagValue::Num(s) => push_str_chars(out, s.as_str()),
        TagValue::Text(s) => emit_jstr(out, s.as_str()),
    }
}

fn emit_tag_map(out: &mut Vec<char>, m: &Vec<Entry<TagValue>>)
    ensures
        final(out)@ == old(out)@ + json_of_tag_map(map_view(m@)),
{
    let ghost mv = map_view(m@);
    out.push('{');
    let n: usize = m.len();
    let mut i: usize = 0;
    proof {
        assert(mv.take(0) =~= Seq::<(Seq<char>, TagValueV)>::empty());
        assert(out@ =~= old(out)@ + seq!['{'] + json_of_tag_entries(mv.take(0)));
    }
    while i < n
        invariant
            n == m@.len(),
            mv == map_view(m@),
            mv.len() == n,
            i <= n,
            out@ == old(out)@ + seq!['{'] + json_of_tag_entries(mv.take(i as int)),
        decreases n - i,
    {
        if i > 0 {
            out.push(',');
        }
        proof {
            assert(mv[i as int] == (m@[i as int].key@, m@[i as int].value@));
        }
        emit_jstr(out, m[i].key.as_str());
        out.push(':');
        emit_tag_value(out, &m[i].value);
        proof {
            assert(mv.take(i + 1).drop_last() =~= mv.take(i as int));
            assert(mv.take(i + 1).last() == mv[i as int]);
            assert(out@ =~= old(out)@ + seq!['{'] + json_of_tag_entries(mv.take(i + 1)));
        }
        i = i + 1;
    }
    out.push('}');
    proof {
        assert(mv.take(n as int) =~= mv);
        assert(out@ =~= old(out)@ + json_of_tag_map(mv));
    }
}

fn emit_str_map(out: &mut Vec<char>, m: &Vec<Entry<String>>)
    ensures
        final(out)@ == old(out)@ + json_of_str_map(map_view(m@)),
{
    let ghost mv = map_view(m@);
    out.push('{');
    let n: usize = m.len();
    let mut i: usize = 0;
    proof {
        assert(mv.take(0) =~= Seq::<(Seq<char>, Seq<char>)>::empty());
        assert(out@ =~= old(out)@ + seq!['{'] + json_of_str_entries(mv.take(0)));
    }
    while i < n
        invariant
            n == m@.len(),
            mv == map_view(m@),
            mv.len() == n,
            i <= n,
            out@ == old(out)@ + seq!['{'] + json_of_str_entries(mv.take(i as int)),
        decreases n - i,
    {
        if i > 0 {
            out.push(',');
        }
        proof {
            assert(mv[i as int] == (m@[i as int].key@, m@[i as int].value@));
        }
        emit_jstr(out, m[i].key.as_str());
        out.push(':');
        emit_jstr(out, m[i].value.as_str());
        proof {
            assert(mv.take(i + 1).drop_last() =~= mv.take(i as int));
            assert(mv.take(i + 1).last() == mv[i as int]);
            assert(out@ =~= old(out)@ + seq!['{'] + json_of_str_entries(mv.take(i + 1)));
        }
        i = i + 1;
    }
    out.push('}');
    proof {
        assert(mv.take(n as int) =~= mv);
        assert(out@ =~= old(out)@ + json_of_str_map(mv));
    }
}

fn emit_event(out: &mut Vec<char>, e: &InstanaEvent)
    ensures
        final(out)@ == old(out)@ + json_of_event(e@),
{
    push_str_chars(out, "{\"value\":");
    emit_tag_map(out, &e.value);
    push_str_chars(out, ",\"timestamp\":");
    emit_jstr(out, e.timestamp.as_str());
    out.push('}');
    proof {
        assert(out@ =~= old(out)@ + json_of_event(e@));
    }
}

fn emit_event_map(out: &mut Vec<char>, m: &Vec<Entry<InstanaEvent>>)
    ensures
        final(out)@ == old(out)@ + json_of_event_map(map_view(m@)),
{
    let ghost mv = map_view(m@);
    out.push('{');
    let n: usize = m.len();
    let mut i: usize = 0;
    proof {
        assert(mv.take(0) =~= Seq::<(Seq<char>, InstanaEventV)>::empty());
        assert(out@ =~= old(out)@ + seq!['{'] + json_of_event_entries(mv.take(0)));
    }
    while i < n
        invariant
            n == m@.len(),
            mv == map_view(m@),
            mv.len() == n,
            i <= n,
            out@ == old(out)@ + seq!['{'] + json_of_event_entries(mv.take(i as int)),
        decreases n - i,
    {
        if i > 0 {
            out.push(',');
        }
        proof {
            assert(mv[i as int] == (m@[i as int].key@, m@[i as int].value@));
        }
        emit_jstr(out, m[i].key.as_str());
        out.push(':');
        emit_event(out, &m[i].value);
        proof {
            assert(mv.take(i + 1).drop_last() =~= mv.take(i as int));
            assert(mv.take(i + 1).last() == mv[i as int]);
            assert(out@ =~= old(out)@ + seq!['{'] + json_of_event_entries(mv.take(i + 1)));
        }
        i = i + 1;
    }
    out.push('}');
    proof {
        assert(mv.take(n as int) =~= mv);
        assert(out@ =~= old(out)@ + json_of_event_map(mv));
    }
}

fn emit_link(out: &mut Vec<char>, l: &InstanaLink)
    ensures
        final(out)@ == old(out)@ + json_of_link(l@),
{
    push_str_chars(out, "{\"t\":");
    emit_jstr(out, l.trace_id.as_str());
    push_str_chars(out, ",\"s\":");
    emit_jstr(out, l.span_id.as_str());
    push_str_chars(out, ",\"attributes\":");
    emit_tag_map(out, &l.attributes);
    out.push('}');
    proof {
        assert(out@ =~= old(out)@ + json_of_link(l@));
    }
}

fn emit_links(out: &mut Vec<char>, s: &Vec<InstanaLink>)
    ensures
        final(out)@ == old(out)@ + json_of_links(links_view(s@)),
{
    let ghost sv = links_view(s@);
    out.push('[');
    let n: usize = s.len();
    let mut i: usize = 0;
    proof {
        assert(sv.take(0) =~= Seq::<InstanaLinkV>::empty());
        assert(out@ =~= old(out)@ + seq!['['] + json_of_link_elems(sv.take(0)));
    }
    while i < n
        invariant
            n == s@.len(),
            sv == links_view(s@),
            sv.len() == n,
            i <= n,
            out@ == old(out)@ + seq!['['] + json_of_link_elems(sv.take(i as int)),
        decreases n - i,
    {
        if i > 0 {
            out.push(',');
        }
        proof {
            assert(sv[i as int] == s@[i as int]@);
        }
        emit_link(out, &s[i]);
        proof {
            assert(sv.take(i + 1).drop_last() =~= sv.take(i as int));
            assert(sv.take(i + 1).last() == sv[i as int]);
            assert(out@ =~= old(out)@ + seq!['['] + json_of_link_elems(sv.take(i + 1)));
        }
        i = i + 1;
    }
    out.push(']');
    proof {
        assert(sv.take(n as int) =~= sv);
        assert(out@ =~= old(out)@ + json_of_links(sv));
    }
}

#[verifier::rlimit(80)]
fn emit_otel(out: &mut Vec<char>, o: &InstanaOtel)
    ensures
        final(out)@ == old(out)@ + json_of_otel(*o),
{
    push_str_chars(out, "{\"scope.name\":");
    emit_jstr(out, o.scope_name.as_str());
    match &o.scope_version {
        Some(v) => {
            push_str_chars(out, ",\"scope.version\":");
            emit_jstr(out, v.as_str());
        },
        None => {},
    }
    push_str_chars(out, ",\"dropped_events_count\":");
    emit_u32(out, o.dropped_events_count);
    push_str_chars(out, ",\"dropped_links_count\":");
    emit_u32(out, o.dropped_links_count);
    push_str_chars(out, ",\"dropped_attributes_count\":");
    emit_u32(out, o.dropped_attributes_count);
    match &o.status_code {
        Some(c) => {
            push_str_chars(out, ",\"status_code\":");
            emit_jstr(out, c.as_str());
        },
        None => {},
    }
    match &o.status_description {
        Some(d) => {
            push_str_chars(out, ",\"status_description\":");
            emit_jstr(out, d.as_str());
        },
        None => {},
    }
    out.push('}');
    proof {
        assert(out@ =~= old(out)@ + json_of_otel(*o));
    }
}

fn emit_tags_attributes(out: &mut Vec<char>, a: &Option<Vec<Entry<TagValue>>>)
    ensures
        final(out)@ == old(out)@ + tags_attributes_piece(*a),
{
    match a {
        Some(a) => {
            push_str_chars(out, "\"attributes\":");
            emit_tag_map(out, a);
            out.push(',');
            proof {
                assert(out@ =~= old(out)@ + tags_attributes_piece(Some(*a)));
            }
        },
        None => {
            proof {
                assert(out@ =~= old(out)@ + tags_attributes_piece(None::<Vec<Entry<TagValue>>>));
            }
        },
    }
}

fn emit_tags_resource(out: &mut Vec<char>, r: &Option<Vec<Entry<String>>>)
    ensures
        final(out)@ == old(out)@ + tags_resource_piece(*r),
{
    match r {
        Some(r) => {
            push_str_chars(out, "\"resource\":");
            emit_str_map(out, r);
            out.push(',');
            proof {
                assert(out@ =~= old(out)@ + tags_resource_piece(Some(*r)));
            }
        },
        None => {
            proof {
                assert(out@ =~= old(out)@ + tags_resource_piece(None::<Vec<Entry<String>>>));
            }
        },
    }
}

fn emit_tags_events(out: &mut Vec<char>, e: &Option<Vec<Entry<InstanaEvent>>>)
    ensures
        final(out)@ == old(out)@ + tags_events_piece(*e),
{
    match e {
        Some(e) => {
            push_str_chars(out, "\"events\":");
            emit_event_map(out, e);
            out.push(',');
            proof {
                assert(out@ =~= old(out)@ + tags_events_piece(Some(*e)));
            }
        },
        None => {
            proof {
                assert(out@ =~= old(out)@ + tags_events_piece(None::<Vec<Entry<InstanaEvent>>>));
            }
        },
    }
}

fn emit_tags_links(out: &mut Vec<char>, l: &Option<Vec<InstanaLink>>)
    ensures
        final(out)@ == old(out)@ + tags_links_piece(*l),
{
    match l {
        Some(l) => {
            push_str_chars(out, "\"links\":");
            emit_links(out, l);
            out.push(',');
            proof {
                assert(out@ =~= old(out)@ + tags_links_piece(Some(*l)));
            }
        },
        None => {
            proof {
                assert(out@ =~= old(out)@ + tags_links_piece(None::<Vec<InstanaLink>>));
            }
        },
    }
}

fn emit_tags(out: &mut Vec<char>, t: &InstanaTags)
    ensures
        final(out)@ == old(out)@ + json_of_tags(*t),
{
    out.push('{');
    emit_tags_attributes(out, &t.attributes);
    emit_tags_resource(out, &t.resource);
    emit_tags_events(out, &t.events);
    emit_tags_links(out, &t.links);
    push_str_chars(out, "\"otel\":");
    emit_otel(out, &t.otel);
    out.push('}');
    proof {
        assert(out@ =~= old(out)@ + json_of_tags(*t));
    }
}

#[verifier::rlimit(80)]
fn emit_span_data(out: &mut Vec<char>, d: &InstanaSpanData)
    ensures
        final(out)@ == old(out)@ + json_of_span_data(*d),
{
    push_str_chars(out, "{\"sdk\":");
    push_str_chars(out, "{\"name\":");
    emit_jstr(out, d.sdk.name.as_str());
    push_str_chars(out, ",\"type\":");
    emit_jstr(out, d.sdk.span_type.as_str());
    push_str_chars(out, ",\"custom\":");
    push_str_chars(out, "{\"tags\":");
    emit_tags(out, &d.sdk.custom.tags);
    out.push('}');
    out.push('}');
    match &d.service {
        Some(s) => {
            push_str_chars(out, ",\"service\":");
            emit_jstr(out, s.as_str());
        },
        None => {},
    }
    out.push('}');
    proof {
        assert(out@ =~= old(out)@ + json_of_span_data(*d));
    }
}

fn emit_from(out: &mut Vec<char>, f: &InstanaSpanFrom)
    ensures
        final(out)@ == old(out)@ + json_of_from(*f),
{
    out.push('{');
    match &f.process_id {
        Some(e) => {
            push_str_chars(out, "\"e\":");
            emit_i64(out, *e);
        },
        None => {},
    }
    if f.process_id.is_some() && f.host_id.is_some() {
        out.push(',');
    }
    match &f.host_id {
        Some(h) => {
            push_str_chars(out, "\"h\":");
            emit_jstr(out, h.as_str());
        },
        None => {},
    }
    out.push('}');
    proof {
        assert(out@ =~= old(out)@ + json_of_from(*f));
    }
}

fn emit_span_parent(out: &mut Vec<char>, p: &Option<String>)
    ensures
        final(out)@ == old(out)@ + span_parent_piece(*p),
{
    match p {
        Some(p) => {
            push_str_chars(out, "\"p\":");
            emit_jstr(out, p.as_str());
            out.push(',');
            proof {
                assert(out@ =~= old(out)@ + span_parent_piece(Some(*p)));
            }
        },
        None => {
            proof {
                assert(out@ =~= old(out)@ + span_parent_piece(None::<String>));
            }
        },
    }
}

fn emit_opt_jstr(out: &mut Vec<char>, prefix: &str, v: &Option<String>)
    ensures
        final(out)@ == old(out)@ + opt_jstr_piece(prefix@, *v),
{
    match v {
        Some(s) => {
            push_str_chars(out, prefix);
            emit_jstr(out, s.as_str());
            proof {
                assert(out@ =~= old(out)@ + opt_jstr_piece(prefix@, Some(*s)));
            }
        },
        None => {
            proof {
                assert(out@ =~= old(out)@ + opt_jstr_piece(prefix@, None::<String>));
            }
        },
    }
}

fn emit_span_ec(out: &mut Vec<char>, ec: &Option<i32>)
    ensures
        final(out)@ == old(out)@ + span_ec_piece(*ec),
{
    match ec {
        Some(ec) => {
            push_str_chars(out, ",\"ec\":");
            emit_i32(out, *ec);
            proof {
                assert(out@ =~= old(out)@ + span_ec_piece(Some(*ec)));
            }
        },
        None => {
            proof {
                assert(out@ =~= old(out)@ + span_ec_piece(None::<i32>));
            }
        },
    }
}

fn emit_span_tp(out: &mut Vec<char>, tp: &Option<bool>)
    ensures
        final(out)@ == old(out)@ + span_tp_piece(*tp),
{
    match tp {
        Some(tp) => {
            push_str_chars(out, ",\"tp\":");
            emit_jbool(out, *tp);
            proof {
                assert(out@ =~= old(out)@ + span_tp_piece(Some(*tp)));
            }
        },
        None => {
            proof {
                assert(out@ =~= old(out)@ + span_tp_piece(None::<bool>));
            }
        },
    }
}

/// Renders one wire span as JSON text.
#[verifier::rlimit(100)]
pub fn emit_span(out: &mut Vec<char>, s: &InstanaSpan)
    ensures
        final(out)@ == old(out)@ + json_of_span(*s),
{
    let ghost p0 = old(out)@;
    out.push('{');
    emit_span_parent(out, &s.parent_span_id);
    push_str_chars(out, "\"t\":");
    emit_jstr(out, s.trace_id.as_str());
    push_str_chars(out, ",\"s\":");
    emit_jstr(out, s.span_id.as_str());
    push_str_chars(out, ",\"n\":");
    emit_jstr(out, s.name.as_str());
    let ghost q1 = seq!['{'] + span_parent_piece(s.parent_span_id) + "\"t\":"@ + jstr(
        s.trace_id@,
    ) + ",\"s\":"@ + jstr(s.span_id@) + ",\"n\":"@ + jstr(s.name@);
    proof {
        assert(out@ =~= p0 + q1);
    }
    push_str_chars(out, ",\"k\":");
    emit_i32(out, s.kind);
    push_str_chars(out, ",\"ts\":");
    emit_u64(out, s.timestamp);
    push_str_chars(out, ",\"d\":");
    emit_u64(out, s.duration);
    push_str_chars(out, ",\"sy\":");
    emit_jbool(out, s.synthetic);
    let ghost q2 = q1 + ",\"k\":"@ + dec_int(s.kind as int) + ",\"ts\":"@ + dec_nat(
        s.timestamp as nat,
    ) + ",\"d\":"@ + dec_nat(s.duration as nat) + ",\"sy\":"@ + jbool(s.synthetic);
    proof {
        assert(out@ =~= p0 + q2);
    }
    emit_opt_jstr(out, ",\"lt\":", &s.long_trace_id);
    emit_span_ec(out, &s.error_count);
    emit_opt_jstr(out, ",\"crid\":", &s.correlation_id);
    emit_opt_jstr(out, ",\"crtp\":", &s.correlation_type);
    emit_span_tp(out, &s.trace_parent);
    let ghost q3 = q2 + opt_jstr_piece(",\"lt\":"@, s.long_trace_id) + span_ec_piece(
        s.error_count,
    ) + opt_jstr_piece(",\"crid\":"@, s.correlation_id) + opt_jstr_piece(
        ",\"crtp\":"@,
        s.correlation_type,
    ) + span_tp_piece(s.trace_parent);
    proof {
        assert(out@ =~= p0 + q3);
    }
    push_str_chars(out, ",\"data\":");
    emit_span_data(out, &s.data);
    push_str_chars(out, ",\"f\":");
    emit_from(out, &s.from);
    out.push('}');
    proof {
        assert(out@ =~= p0 + (q3 + ",\"data\":"@ + json_of_span_data(s.data) + ",\"f\":"@
            + json_of_from(s.from) + seq!['}']));
        assert(q3 + ",\"data\":"@ + json_of_span_data(s.data) + ",\"f\":"@ + json_of_from(
            s.from,
        ) + seq!['}'] == json_of_span(*s));
    }
}

/// Renders a batch of wire spans as a JSON array.
#[verifier::rlimit(100)]
pub fn emit_batch(out: &mut Vec<char>, spans: &Vec<InstanaSpan>)
    ensures
        final(out)@ == old(out)@ + json_of_batch(spans@),
{
    out.push('[');
    let n: usize = spans.len();
    let mut i: usize = 0;
    proof {
        assert(spans@.take(0) =~= Seq::<InstanaSpan>::empty());
        assert(out@ =~= old(out)@ + seq!['['] + json_of_span_elems(spans@.take(0)));
    }
    while i < n
        invariant
            n == spans@.len(),
            i <= n,
            out@ == old(out)@ + seq!['['] + json_of_span_elems(spans@.take(i as int)),
        decreases n - i,
    {
        if i > 0 {
            out.push(',');
        }
        emit_span(out, &spans[i]);
        proof {
            assert(spans@.take(i + 1).drop_last() =~= spans@.take(i as int));
            assert(spans@.take(i + 1).last() == spans@[i as int]);
            assert(out@ =~= old(out)@ + seq!['['] + json_of_span_elems(spans@.take(i + 1)));
        }
        i = i + 1;
    }
    out.push(']');
    proof {
        assert(spans@.take(n as int) =~= spans@);
        assert(out@ =~= old(out)@ + json_of_batch(spans@));
    }
}

} // verus!
