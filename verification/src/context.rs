//! The trace-context data model: a span context (trace id, span id,
//! sampling decision, remote flag, trace state) and the ambient context that
//! may carry one.

use vstd::prelude::*;

verus! {

/// One `key:value` entry of a span's trace state.
#[derive(Debug)]
pub struct TraceStateEntry {
    pub key: String,
    pub value: String,
}

impl View for TraceStateEntry {
    type V = (Seq<char>, Seq<char>);

    open spec fn view(&self) -> (Seq<char>, Seq<char>) {
        (self.key@, self.value@)
    }
}

/// Mathematical view of a span context.
pub struct SpanContextV {
    pub trace_id: nat,
    pub span_id: nat,
    pub sampled: bool,
    pub remote: bool,
    pub trace_state: Seq<(Seq<char>, Seq<char>)>,
}

pub open spec fn trace_state_view(ts: Seq<TraceStateEntry>) -> Seq<(Seq<char>, Seq<char>)> {
    Seq::new(ts.len(), |i: int| (ts[i].key@, ts[i].value@))
}

/// The identity of one position in a distributed trace: a 128-bit trace id,
/// a 64-bit span id, the sampling decision, whether it came from a remote
/// peer, and the raw trace state.
#[derive(Debug)]
pub struct SpanContext {
    pub trace_id: u128,
    pub span_id: u64,
    pub sampled: bool,
    pub remote: bool,
    pub trace_state: Vec<TraceStateEntry>,
}

impl View for SpanContext {
    type V = SpanContextV;

    open spec fn view(&self) -> SpanContextV {
        SpanContextV {
            trace_id: self.trace_id as nat,
            span_id: self.span_id as nat,
            sampled: self.sampled,
            remote: self.remote,
            trace_state: trace_state_view(self.trace_state@),
        }
    }
}

impl SpanContextV {
    /// A span context is valid when neither identifier is the all-zero
    /// sentinel.
    pub open spec fn is_valid(self) -> bool {
        self.trace_id != 0 && self.span_id != 0
    }
}

impl SpanContext {
    pub fn new(
        trace_id: u128,
        span_id: u64,
        sampled: bool,
        remote: bool,
        trace_state: Vec<TraceStateEntry>,
    ) -> (r: SpanContext)
        ensures
            r@ == (SpanContextV {
                trace_id: trace_id as nat,
                span_id: span_id as nat,
                sampled,
                remote,
                trace_state: trace_state_view(trace_state@),
            }),
    {
        SpanContext { trace_id, span_id, sampled, remote, trace_state }
    }

    /// Whether neither identifier is the all-zero sentinel.
    pub fn is_valid(&self) -> (r: bool)
        ensures
            r == self@.is_valid(),
    {
        self.trace_id != 0 && self.span_id != 0
    }

    /// An exact copy.
    pub fn duplicate(&self) -> (r: SpanContext)
        ensures
            r@ == self@,
    {
        let mut ts: Vec<TraceStateEntry> = Vec::new();
        let n: usize = self.trace_state.len();
        let mut i: usize = 0;
        while i < n
            invariant
                n == self.trace_state@.len(),
                i <= n,
                ts@.len() == i,
                forall|j: int|
                    0 <= j < i ==> (#[trigger] ts@[j]).key@ == self.trace_state@[j].key@
                        && ts@[j].value@ == self.trace_state@[j].value@,
            decreases n - i,
        {
            ts.push(
                TraceStateEntry {
                    key: self.trace_state[i].key.clone(),
                    value: self.trace_state[i].value.clone(),
                },
            );
            i = i + 1;
        }
        let r = SpanContext {
            trace_id: self.trace_id,
            span_id: self.span_id,
            sampled: self.sampled,
            remote: self.remote,
            trace_state: ts,
        };
        proof {
            assert(trace_state_view(r.trace_state@) =~= trace_state_view(self.trace_state@));
        }
        r
    }
}

/// The ambient context: it may hold the span context of the current
/// position in a trace, or none at all.
#[derive(Debug)]
pub struct Context {
    pub span: Option<SpanContext>,
}

impl View for Context {
    type V = Option<SpanContextV>;

    open spec fn view(&self) -> Option<SpanContextV> {
        match self.span {
            Some(sc) => Some(sc@),
            None => None,
        }
    }
}

impl Context {
    /// A context with no span identity.
    pub fn new() -> (r: Context)
        ensures
            r@ is None,
    {
        Context { span: None }
    }

    /// This context with `sc` attached as a remote span context: the
    /// returned context carries `sc` with its remote flag forced on.
    pub fn with_remote_span_context(&self, sc: SpanContext) -> (r: Context)
        ensures
            r@ == Some(SpanContextV { remote: true, ..sc@ }),
    {
        let r = Context {
            span: Some(
                SpanContext {
                    trace_id: sc.trace_id,
                    span_id: sc.span_id,
                    sampled: sc.sampled,
                    remote: true,
                    trace_state: sc.trace_state,
                },
            ),
        };
        r
    }

    /// An exact copy.
    pub fn duplicate(&self) -> (r: Context)
        ensures
            r@ == self@,
    {
        match &self.span {
            Some(sc) => Context { span: Some(sc.duplicate()) },
            None => Context { span: None },
        }
    }
}

} // verus!
