//! A composite codec: runs a list of codecs in a fixed sequence, merging
//! injected fields and chaining extraction, and exposes the union of all
//! constituent carrier field names.

use vstd::prelude::*;
use vstd::seq_lib::lemma_seq_contains_after_push;
use crate::carrier::Carrier;
use crate::context::{Context, SpanContextV};
use crate::propagator::{
    level_field, spec_extract, spec_inject, trace_id_field, span_id_field, Propagator,
};
use crate::strutil::str_eq;

verus! {

broadcast use lemma_seq_contains_after_push, Seq::lemma_take_succ_push;

/// The capability every trace-context codec offers: inject into a carrier,
/// extract from one, and name the carrier fields it owns.
pub trait TextMapCodec {
    /// The carrier field names this codec reads and writes.
    spec fn codec_fields(&self) -> Seq<Seq<char>>;

    /// What injecting a context does to a carrier.
    spec fn codec_inject(
        &self,
        c: Seq<(Seq<char>, Seq<char>)>,
        sc: Option<SpanContextV>,
    ) -> Seq<(Seq<char>, Seq<char>)>;

    /// What extracting from a carrier yields, given the context so far.
    spec fn codec_extract(
        &self,
        cx: Option<SpanContextV>,
        c: Seq<(Seq<char>, Seq<char>)>,
    ) -> Option<SpanContextV>;

    fn fields(&self) -> (r: Vec<String>)
        ensures
            r.deep_view() == self.codec_fields(),
    ;

    fn inject_context(&self, cx: &Context, carrier: &mut Carrier)
        ensures
            final(carrier)@ == self.codec_inject(old(carrier)@, cx@),
    ;

    fn extract_with_context(&self, cx: &Context, carrier: &Carrier) -> (r: Context)
        ensures
            r@ == self.codec_extract(cx@, carrier@),
    ;
}

impl TextMapCodec for Propagator {
    open spec fn codec_fields(&self) -> Seq<Seq<char>> {
        seq![trace_id_field(), span_id_field(), level_field()]
    }

    open spec fn codec_inject(
        &self,
        c: Seq<(Seq<char>, Seq<char>)>,
        sc: Option<SpanContextV>,
    ) -> Seq<(Seq<char>, Seq<char>)> {
        spec_inject(c, sc)
    }

    open spec fn codec_extract(
        &self,
        cx: Option<SpanContextV>,
        c: Seq<(Seq<char>, Seq<char>)>,
    ) -> Option<SpanContextV> {
        match spec_extract(c) {
            Ok(v) => Some(v),
            Err(_) => cx,
        }
    }

    fn fields(&self) -> (r: Vec<String>) {
        let r = crate::propagator::instana_context_header_fields();
        proof {
            assert(r.deep_view() =~= self.codec_fields());
        }
        r
    }

    fn inject_context(&self, cx: &Context, carrier: &mut Carrier) {
        self.propagator_inject_context(cx, carrier)
    }

    fn extract_with_context(&self, cx: &Context, carrier: &Carrier) -> (r: Context) {
        self.propagator_extract_with_context(cx, carrier)
    }
}

/// The carrier after each codec of `ps`, first to last, has injected into it.
pub open spec fn composite_inject(
    ps: Seq<Box<dyn TextMapCodec>>,
    c: Seq<(Seq<char>, Seq<char>)>,
    sc: Option<SpanContextV>,
) -> Seq<(Seq<char>, Seq<char>)>
    decreases ps.len(),
{
    if ps.len() == 0 {
        c
    } else {
        composite_inject(ps.drop_first(), ps[0].codec_inject(c, sc), sc)
    }
}

/// The context threaded through each codec of `ps` in order, each receiving
/// the output context of the previous one.
pub open spec fn composite_extract(
    ps: Seq<Box<dyn TextMapCodec>>,
    cx: Option<SpanContextV>,
    c: Seq<(Seq<char>, Seq<char>)>,
) -> Option<SpanContextV>
    decreases ps.len(),
{
    if ps.len() == 0 {
        cx
    } else {
        composite_extract(ps.drop_first(), ps[0].codec_extract(cx, c), c)
    }
}

/// Whether some codec of `ps` claims carrier field `k`.
pub open spec fn some_codec_has_field(ps: Seq<Box<dyn TextMapCodec>>, k: Seq<char>) -> bool {
    exists|i: int| 0 <= i < ps.len() && #[trigger] ps[i].codec_fields().contains(k)
}

/// An ordered list of codecs run in sequence against one carrier.
pub struct CompositePropagator {
    pub propagators: Vec<Box<dyn TextMapCodec>>,
    pub fields: Vec<String>,
}

fn contains_string(v: &Vec<String>, s: &String) -> (r: bool)
    ensures
        r == v.deep_view().contains(s@),
{
    let n: usize = v.len();
    let mut i: usize = 0;
    while i < n
        invariant
            n == v@.len(),
            i <= n,
            forall|j: int| 0 <= j < i ==> v.deep_view()[j] != s@,
        decreases n - i,
    {
        if str_eq(v[i].as_str(), s.as_str()) {
            proof {
                assert(v.deep_view()[i as int] == s@);
            }
            return true;
        }
        i = i + 1;
    }
    proof {
        if v.deep_view().contains(s@) {
            let j = choose|j: int| 0 <= j < v.deep_view().len() && v.deep_view()[j] == s@;
            assert(false);
        }
    }
    false
}

impl CompositePropagator {
    /// Builds the composite and records the union of the constituents'
    /// carrier field names, without duplicates.
    pub fn new(propagators: Vec<Box<dyn TextMapCodec>>) -> (r: CompositePropagator)
        ensures
            r.propagators@ == propagators@,
            forall|k: Seq<char>| r.fields.deep_view().contains(k) == some_codec_has_field(
                propagators@,
                k,
            ),
            forall|i: int, j: int|
                0 <= i < j < r.fields.deep_view().len() ==> r.fields.deep_view()[i]
                    != r.fields.deep_view()[j],
    {
        let ghost ps = propagators@;
        let mut fields: Vec<String> = Vec::new();
        let n: usize = propagators.len();
        let mut i: usize = 0;
        while i < n
            invariant
                n == propagators@.len(),
                i <= n,
                forall|k: Seq<char>| fields.deep_view().contains(k) == some_codec_has_field(
                    propagators@.take(i as int),
                    k,
                ),
                forall|a: int, b: int|
                    0 <= a < b < fields.deep_view().len() ==> fields.deep_view()[a]
                        != fields.deep_view()[b],
            decreases n - i,
        {
            let f = propagators[i].fields();
            let m: usize = f.len();
            let mut j: usize = 0;
            while j < m
                invariant
                    n == propagators@.len(),
                    i < n,
                    m == f@.len(),
                    j <= m,
                    f.deep_view() == propagators@[i as int].codec_fields(),
                    forall|k: Seq<char>| fields.deep_view().contains(k) == (some_codec_has_field(
                        propagators@.take(i as int),
                        k,
                    ) || f.deep_view().take(j as int).contains(k)),
                    forall|a: int, b: int|
                        0 <= a < b < fields.deep_view().len() ==> fields.deep_view()[a]
                            != fields.deep_view()[b],
                decreases m - j,
            {
                let ghost pre = fields.deep_view();
                let ghost cur = f.deep_view()[j as int];
                let already = contains_string(&fields, &f[j]);
                if !already {
                    let item = f[j].clone();
                    fields.push(item);
                    proof {
                        assert(fields.deep_view() =~= pre.push(cur));
                        assert forall|k: Seq<char>|
                            fields.deep_view().contains(k) == (pre.contains(k) || k == cur) by {
                            assert(pre.push(cur).contains(k) <==> (cur == k || pre.contains(k)));
                        }
                        assert forall|a: int, b: int|
                            0 <= a < b < fields.deep_view().len() implies fields.deep_view()[a]
                            != fields.deep_view()[b] by {
                            if b == fields.deep_view().len() - 1 {
                                assert(fields.deep_view()[a] == pre[a]);
                                if pre[a] == cur {
                                    assert(pre.contains(cur));
                                }
                            }
                        }
                    }
                }
                proof {
                    assert(f.deep_view().take(j + 1) =~= f.deep_view().take(j as int).push(cur));
                    assert forall|k: Seq<char>|
                        f.deep_view().take(j + 1).contains(k) == (f.deep_view().take(
                            j as int,
                        ).contains(k) || k == cur) by {
                        assert(f.deep_view().take(j as int).push(cur).contains(k) <==> (cur == k
                            || f.deep_view().take(j as int).contains(k)));
                    }
                    if already {
                        assert(fields.deep_view().contains(cur));
                    }
                }
                j = j + 1;
            }
            proof {
                assert(f.deep_view().take(m as int) =~= f.deep_view());
                assert(propagators@.take(i + 1).drop_last() =~= propagators@.take(i as int));
                assert(forall|k: Seq<char>|
                    some_codec_has_field(propagators@.take(i + 1), k) == (some_codec_has_field(
                        propagators@.take(i as int),
                        k,
                    ) || propagators@[i as int].codec_fields().contains(k))) by {
                    lemma_some_codec_field_step(propagators@, i as int);
                };
            }
            i = i + 1;
        }
        proof {
            assert(propagators@.take(n as int) =~= propagators@);
        }
        CompositePropagator { propagators, fields }
    }
}

proof fn lemma_some_codec_field_step(ps: Seq<Box<dyn TextMapCodec>>, i: int)
    requires
        0 <= i < ps.len(),
    ensures
        forall|k: Seq<char>|
            some_codec_has_field(ps.take(i + 1), k) == (some_codec_has_field(ps.take(i), k) || ps[
                i
            ].codec_fields().contains(k)),
{
    assert forall|k: Seq<char>|
        some_codec_has_field(ps.take(i + 1), k) == (some_codec_has_field(ps.take(i), k) || ps[
            i
        ].codec_fields().contains(k)) by {
        let a = ps.take(i + 1);
        let b = ps.take(i);
        if some_codec_has_field(a, k) {
            let x = choose|x: int| 0 <= x < a.len() && #[trigger] a[x].codec_fields().contains(k);
            if x < i {
                assert(b[x] == a[x]);
                assert(some_codec_has_field(b, k));
            } else {
                assert(a[x] == ps[i]);
            }
        }
        if some_codec_has_field(b, k) {
            let x = choose|x: int| 0 <= x < b.len() && #[trigger] b[x].codec_fields().contains(k);
            assert(a[x] == b[x]);
            assert(some_codec_has_field(a, k));
        }
        if ps[i].codec_fields().contains(k) {
            assert(a[i] == ps[i]);
            assert(some_codec_has_field(a, k));
        }
    }
}

impl TextMapCodec for CompositePropagator {
    open spec fn codec_fields(&self) -> Seq<Seq<char>> {
        self.fields.deep_view()
    }

    open spec fn codec_inject(
        &self,
        c: Seq<(Seq<char>, Seq<char>)>,
        sc: Option<SpanContextV>,
    ) -> Seq<(Seq<char>, Seq<char>)> {
        composite_inject(self.propagators@, c, sc)
    }

    open spec fn codec_extract(
        &self,
        cx: Option<SpanContextV>,
        c: Seq<(Seq<char>, Seq<char>)>,
    ) -> Option<SpanContextV> {
        composite_extract(self.propagators@, cx, c)
    }

    fn fields(&self) -> (r: Vec<String>) {
        let n: usize = self.fields.len();
        let mut r: Vec<String> = Vec::new();
        let mut i: usize = 0;
        while i < n
            invariant
                n == self.fields@.len(),
                i <= n,
                r.deep_view() == self.fields.deep_view().take(i as int),
            decreases n - i,
        {
            let ghost pre = r.deep_view();
            let item = self.fields[i].clone();
            r.push(item);
            proof {
                assert(r.deep_view() =~= pre.push(self.fields.deep_view()[i as int]));
                assert(self.fields.deep_view().take(i + 1) =~= self.fields.deep_view().take(
                    i as int,
                ).push(self.fields.deep_view()[i as int]));
                assert(r.deep_view() =~= self.fields.deep_view().take(i + 1));
            }
            i = i + 1;
        }
        proof {
            assert(self.fields.deep_view().take(n as int) =~= self.fields.deep_view());
        }
        r
    }

    /// Each constituent injects in list order against the same carrier;
    /// later codecs may overwrite fields written by earlier ones.
    fn inject_context(&self, cx: &Context, carrier: &mut Carrier) {
        let ghost ps = self.propagators@;
        let n: usize = self.propagators.len();
        let mut i: usize = 0;
        proof {
            assert(ps.skip(0) =~= ps);
        }
        while i < n
            invariant
                n == self.propagators@.len(),
                ps == self.propagators@,
                i <= n,
                composite_inject(ps, old(carrier)@, cx@) == composite_inject(
                    ps.skip(i as int),
                    carrier@,
                    cx@,
                ),
            decreases n - i,
        {
            proof {
                assert(ps.skip(i as int)[0] == ps[i as int]);
                assert(ps.skip(i as int).drop_first() =~= ps.skip(i + 1));
            }
            self.propagators[i].inject_context(cx, carrier);
            i = i + 1;
        }
        proof {
            assert(ps.skip(n as int) =~= Seq::<Box<dyn TextMapCodec>>::empty());
        }
    }

    /// Threads the context through each constituent in list order.
    fn extract_with_context(&self, cx: &Context, carrier: &Carrier) -> (r: Context) {
        let ghost ps = self.propagators@;
        let n: usize = self.propagators.len();
        let mut current = cx.duplicate();
        let mut i: usize = 0;
        proof {
            assert(ps.skip(0) =~= ps);
        }
        while i < n
            invariant
                n == self.propagators@.len(),
                ps == self.propagators@,
                i <= n,
                composite_extract(ps, cx@, carrier@) == composite_extract(
                    ps.skip(i as int),
                    current@,
                    carrier@,
                ),
            decreases n - i,
        {
            proof {
                assert(ps.skip(i as int)[0] == ps[i as int]);
                assert(ps.skip(i as int).drop_first() =~= ps.skip(i + 1));
            }
            current = self.propagators[i].extract_with_context(&current, carrier);
            i = i + 1;
        }
        proof {
            assert(ps.skip(n as int) =~= Seq::<Box<dyn TextMapCodec>>::empty());
        }
        current
    }
}

} // verus!
