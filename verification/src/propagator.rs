//! The trace-context codec: encodes a context's trace identity and sampling
//! decision into three carrier fields and decodes them back, enforcing the
//! exact textual format.
//!
//! Extraction is a sequence of nine gates with exactly one success path; any
//! failure leaves the caller's context untouched.

use vstd::prelude::*;
use crate::carrier::{Carrier, lookup, store, lemma_lookup_store_same, lemma_lookup_store_other};
use crate::context::{Context, SpanContext, SpanContextV};
use crate::ids::{
    all_lower_hex, find_ascii_uppercase, format_span_id, format_trace_id, has_ascii_uppercase,
    hex_pad, hex_val, lemma_hex_pad_val, lemma_uppercase_not_lower_hex, parse_span_id,
    parse_trace_id, pow16,
};
use crate::strutil::{chars_to_string, str_eq, str_to_chars};
use vstd::arithmetic::div_mod::lemma_small_mod;

verus! {

/// Why an extraction attempt was abandoned; the variants follow the gates in
/// the order they are checked.
#[derive(Clone, Copy, Debug, PartialEq, Eq)]
pub enum ExtractError {
    MissingTraceId,
    UppercaseTraceId,
    InvalidTraceId,
    MissingSpanId,
    UppercaseSpanId,
    InvalidSpanId,
    MissingLevel,
    InvalidSpanContext,
}

pub open spec fn trace_id_field() -> Seq<char> {
    "X-INSTANA-T"@
}

pub open spec fn span_id_field() -> Seq<char> {
    "X-INSTANA-S"@
}

pub open spec fn level_field() -> Seq<char> {
    "X-INSTANA-L"@
}

/// What extraction returns on a given carrier: the nine sequential gates.
/// The sampling level never fails on its own: any value other than `"1"`
/// means not sampled.
pub open spec fn spec_extract(c: Seq<(Seq<char>, Seq<char>)>) -> Result<
    SpanContextV,
    ExtractError,
> {
    let t = lookup(c, trace_id_field());
    if t is None {
        Err(ExtractError::MissingTraceId)
    } else if has_ascii_uppercase(t->0) {
        Err(ExtractError::UppercaseTraceId)
    } else if !(t->0.len() == 32 && all_lower_hex(t->0)) {
        Err(ExtractError::InvalidTraceId)
    } else {
        let s = lookup(c, span_id_field());
        if s is None {
            Err(ExtractError::MissingSpanId)
        } else if has_ascii_uppercase(s->0) {
            Err(ExtractError::UppercaseSpanId)
        } else if !(s->0.len() == 16 && all_lower_hex(s->0)) {
            Err(ExtractError::InvalidSpanId)
        } else {
            let l = lookup(c, level_field());
            if l is None {
                Err(ExtractError::MissingLevel)
            } else if hex_val(t->0) == 0 || hex_val(s->0) == 0 {
                Err(ExtractError::InvalidSpanContext)
            } else {
                Ok(
                    SpanContextV {
                        trace_id: hex_val(t->0),
                        span_id: hex_val(s->0),
                        sampled: l->0 == "1"@,
                        remote: true,
                        trace_state: Seq::empty(),
                    },
                )
            }
        }
    }
}

/// What injecting `sc` writes into a carrier: nothing at all for an invalid
/// or absent span context, otherwise the three fields, trace id first.
pub open spec fn spec_inject(c: Seq<(Seq<char>, Seq<char>)>, sc: Option<SpanContextV>) -> Seq<
    (Seq<char>, Seq<char>),
> {
    match sc {
        Some(v) => {
            if v.is_valid() {
                store(
                    store(store(c, trace_id_field(), hex_pad(v.trace_id, 32)), span_id_field(),
                    hex_pad(v.span_id, 16)),
                    level_field(),
                    if v.sampled {
                        "1"@
                    } else {
                        "0"@
                    },
                )
            } else {
                c
            }
        },
        None => c,
    }
}

/// The propagator for the three carrier fields above.
#[derive(Debug)]
pub struct Propagator {
    _private: (),
}

/// The three carrier field names this codec owns, in a fixed order: trace
/// id, span id, sampling level.
pub fn instana_context_header_fields() -> (r: Vec<String>)
    ensures
        r@.len() == 3,
        r@[0]@ == trace_id_field(),
        r@[1]@ == span_id_field(),
        r@[2]@ == level_field(),
{
    let mut r: Vec<String> = Vec::new();
    r.push(String::from_str("X-INSTANA-T"));
    r.push(String::from_str("X-INSTANA-S"));
    r.push(String::from_str("X-INSTANA-L"));
    r
}

impl Propagator {
    pub fn new() -> (r: Propagator)
        ensures
            true,
    {
        Propagator { _private: () }
    }

    /// Runs the nine extraction gates against the carrier and returns either
    /// the remote span context they describe or the first failure.
    pub fn extract_span_context(&self, carrier: &Carrier) -> (r: Result<
        SpanContext,
        ExtractError,
    >)
        ensures
            match r {
                Ok(sc) => spec_extract(carrier@) == Ok::<SpanContextV, ExtractError>(sc@),
                Err(e) => spec_extract(carrier@) == Err::<SpanContextV, ExtractError>(e),
            },
    {
        let t_opt = carrier.get("X-INSTANA-T");
        let t = match t_opt {
            None => {
                return Err(ExtractError::MissingTraceId);
            },
            Some(t) => t,
        };
        let t_chars = str_to_chars(t.as_str());
        if find_ascii_uppercase(&t_chars) {
            return Err(ExtractError::UppercaseTraceId);
        }
        let trace_id = match parse_trace_id(&t_chars) {
            None => {
                return Err(ExtractError::InvalidTraceId);
            },
            Some(v) => v,
        };
        let s_opt = carrier.get("X-INSTANA-S");
        let s = match s_opt {
            None => {
                return Err(ExtractError::MissingSpanId);
            },
            Some(s) => s,
        };
        let s_chars = str_to_chars(s.as_str());
        if find_ascii_uppercase(&s_chars) {
            return Err(ExtractError::UppercaseSpanId);
        }
        let span_id = match parse_span_id(&s_chars) {
            None => {
                return Err(ExtractError::InvalidSpanId);
            },
            Some(v) => v,
        };
        let l = match carrier.get("X-INSTANA-L") {
            None => {
                return Err(ExtractError::MissingLevel);
            },
            Some(l) => l,
        };
        let sampled = str_eq(l.as_str(), "1");
        if trace_id == 0 || span_id == 0 {
            return Err(ExtractError::InvalidSpanContext);
        }
        let sc = SpanContext {
            trace_id,
            span_id,
            sampled,
            remote: true,
            trace_state: Vec::new(),
        };
        proof {
            assert(crate::context::trace_state_view(sc.trace_state@) =~= Seq::<
                (Seq<char>, Seq<char>),
            >::empty());
        }
        Ok(sc)
    }

    /// Writes the context's trace identity into the carrier; a context with
    /// no valid span identity writes nothing.
    pub(crate) fn propagator_inject_context(&self, cx: &Context, carrier: &mut Carrier)
        ensures
            final(carrier)@ == spec_inject(old(carrier)@, cx@),
    {
        match &cx.span {
            None => {},
            Some(sc) => {
                if sc.trace_id != 0 && sc.span_id != 0 {
                    let t = chars_to_string(&format_trace_id(sc.trace_id));
                    carrier.set("X-INSTANA-T", t);
                    let s = chars_to_string(&format_span_id(sc.span_id));
                    carrier.set("X-INSTANA-S", s);
                    let l = if sc.sampled {
                        String::from_str("1")
                    } else {
                        String::from_str("0")
                    };
                    carrier.set("X-INSTANA-L", l);
                }
            },
        }
    }

    /// Attempts extraction; on success the result carries the extracted
    /// remote span context, on any failure it equals the given context.
    pub(crate) fn propagator_extract_with_context(&self, cx: &Context, carrier: &Carrier) -> (r:
        Context)
        ensures
            match spec_extract(carrier@) {
                Ok(v) => r@ == Some(v),
                Err(_) => r@ == cx@,
            },
    {
        match self.extract_span_context(carrier) {
            Ok(sc) => cx.with_remote_span_context(sc),
            Err(_) => cx.duplicate(),
        }
    }
}

/// The three field names differ from one another.
pub proof fn lemma_fields_distinct()
    ensures
        trace_id_field() != span_id_field(),
        trace_id_field() != level_field(),
        span_id_field() != level_field(),
{
    reveal_strlit("X-INSTANA-T");
    reveal_strlit("X-INSTANA-S");
    reveal_strlit("X-INSTANA-L");
    assert(trace_id_field()[10] == 'T');
    assert(span_id_field()[10] == 'S');
    assert(level_field()[10] == 'L');
}

/// Law: injecting a valid span context and then extracting from the same
/// carrier yields exactly that trace id, span id and sampling decision, with
/// the remote flag on and an empty trace state — whatever the carrier held
/// before.
pub proof fn lemma_inject_extract_round_trip(c: Seq<(Seq<char>, Seq<char>)>, sc: SpanContextV)
    requires
        sc.is_valid(),
        sc.trace_id < pow16(32),
        sc.span_id < pow16(16),
    ensures
        spec_extract(spec_inject(c, Some(sc))) == Ok::<SpanContextV, ExtractError>(
            SpanContextV {
                trace_id: sc.trace_id,
                span_id: sc.span_id,
                sampled: sc.sampled,
                remote: true,
                trace_state: Seq::empty(),
            },
        ),
{
    lemma_fields_distinct();
    let lvl: Seq<char> = if sc.sampled {
        "1"@
    } else {
        "0"@
    };
    let c1 = store(c, trace_id_field(), hex_pad(sc.trace_id, 32));
    let c2 = store(c1, span_id_field(), hex_pad(sc.span_id, 16));
    let c3 = store(c2, level_field(), lvl);
    assert(spec_inject(c, Some(sc)) == c3);

    lemma_lookup_store_same(c, trace_id_field(), hex_pad(sc.trace_id, 32));
    lemma_lookup_store_other(c1, span_id_field(), hex_pad(sc.span_id, 16), trace_id_field());
    lemma_lookup_store_other(c2, level_field(), lvl, trace_id_field());
    assert(lookup(c3, trace_id_field()) == Some(hex_pad(sc.trace_id, 32)));

    lemma_lookup_store_same(c1, span_id_field(), hex_pad(sc.span_id, 16));
    lemma_lookup_store_other(c2, level_field(), lvl, span_id_field());
    assert(lookup(c3, span_id_field()) == Some(hex_pad(sc.span_id, 16)));

    lemma_lookup_store_same(c2, level_field(), lvl);
    assert(lookup(c3, level_field()) == Some(lvl));

    lemma_hex_pad_val(sc.trace_id, 32);
    lemma_small_mod(sc.trace_id, pow16(32));
    lemma_hex_pad_val(sc.span_id, 16);
    lemma_small_mod(sc.span_id, pow16(16));

    if has_ascii_uppercase(hex_pad(sc.trace_id, 32)) {
        lemma_uppercase_not_lower_hex(hex_pad(sc.trace_id, 32));
        assert(false);
    }
    if has_ascii_uppercase(hex_pad(sc.span_id, 16)) {
        lemma_uppercase_not_lower_hex(hex_pad(sc.span_id, 16));
        assert(false);
    }

    reveal_strlit("1");
    reveal_strlit("0");
    if sc.sampled {
        assert(lvl == "1"@);
    } else {
        assert("0"@.len() == 1 && "0"@[0] == '0');
        assert("1"@.len() == 1 && "1"@[0] == '1');
        assert(lvl != "1"@);
    }
}

/// Law: an ASCII uppercase character in whichever id field is reached makes
/// extraction fail.
pub proof fn lemma_uppercase_id_fails(c: Seq<(Seq<char>, Seq<char>)>)
    requires
        (lookup(c, trace_id_field()) matches Some(t) && has_ascii_uppercase(t)) || (lookup(
            c,
            span_id_field(),
        ) matches Some(s) && has_ascii_uppercase(s)),
    ensures
        spec_extract(c) is Err,
{
}

/// Law: if any one of the three carrier fields is missing, extraction fails.
pub proof fn lemma_missing_field_fails(c: Seq<(Seq<char>, Seq<char>)>)
    requires
        lookup(c, trace_id_field()) is None || lookup(c, span_id_field()) is None || lookup(
            c,
            level_field(),
        ) is None,
    ensures
        spec_extract(c) is Err,
{
}

/// Law: a successful extraction whose level field is anything other than
/// `"1"` yields a context that is not sampled.
pub proof fn lemma_unrecognized_level_not_sampled(c: Seq<(Seq<char>, Seq<char>)>)
    requires
        spec_extract(c) is Ok,
        lookup(c, level_field()) != Some("1"@),
    ensures
        spec_extract(c) matches Ok(v) && !v.sampled,
{
}

/// Law: injecting a context with no valid span identity writes nothing.
pub proof fn lemma_inject_invalid_is_noop(c: Seq<(Seq<char>, Seq<char>)>, sc: Option<SpanContextV>)
    requires
        match sc {
            Some(v) => !v.is_valid(),
            None => true,
        },
    ensures
        spec_inject(c, sc) == c,
{
}

} // verus!
