//! String-keyed maps kept as vectors of entries: inserting under an existing
//! key replaces that entry's value in place, inserting under a fresh key
//! appends. First insertion fixes an entry's position, last insertion its
//! value.

use vstd::prelude::*;
use crate::strutil::str_eq;

verus! {

/// One map entry.
#[derive(Debug)]
pub struct Entry<V> {
    pub key: String,
    pub value: V,
}

/// The entries as a sequence of key-view/value-view pairs.
pub open spec fn map_view<V: View>(s: Seq<Entry<V>>) -> Seq<(Seq<char>, V::V)> {
    Seq::new(s.len(), |i: int| (s[i].key@, s[i].value@))
}

/// `m` with `(k, v)` written: the first entry keyed `k` gets value `v`, or
/// `(k, v)` is appended when no entry has key `k`.
pub open spec fn upsert_v<T>(m: Seq<(Seq<char>, T)>, k: Seq<char>, v: T) -> Seq<(Seq<char>, T)>
    decreases m.len(),
{
    if m.len() == 0 {
        seq![(k, v)]
    } else if m[0].0 == k {
        seq![(k, v)] + m.drop_first()
    } else {
        seq![m[0]] + upsert_v(m.drop_first(), k, v)
    }
}

/// The value of the first entry of `m` whose key is `k`, if any.
pub open spec fn map_lookup<T>(m: Seq<(Seq<char>, T)>, k: Seq<char>) -> Option<T>
    decreases m.len(),
{
    if m.len() == 0 {
        None
    } else if m[0].0 == k {
        Some(m[0].1)
    } else {
        map_lookup(m.drop_first(), k)
    }
}

/// Reading the key just written gives the written value.
pub proof fn lemma_map_lookup_upsert_same<T>(m: Seq<(Seq<char>, T)>, k: Seq<char>, v: T)
    ensures
        map_lookup(upsert_v(m, k, v), k) == Some(v),
    decreases m.len(),
{
    if m.len() == 0 {
        let t = seq![(k, v)];
        assert(t[0] == (k, v));
    } else if m[0].0 == k {
        let t = seq![(k, v)] + m.drop_first();
        assert(t[0] == (k, v));
    } else {
        lemma_map_lookup_upsert_same(m.drop_first(), k, v);
        let t = seq![m[0]] + upsert_v(m.drop_first(), k, v);
        assert(t[0] == m[0]);
        assert(t.drop_first() =~= upsert_v(m.drop_first(), k, v));
    }
}

/// Writing under one key leaves every other key's value unchanged.
pub proof fn lemma_map_lookup_upsert_other<T>(
    m: Seq<(Seq<char>, T)>,
    k: Seq<char>,
    v: T,
    k2: Seq<char>,
)
    requires
        k2 != k,
    ensures
        map_lookup(upsert_v(m, k, v), k2) == map_lookup(m, k2),
    decreases m.len(),
{
    if m.len() == 0 {
        let t = seq![(k, v)];
        assert(t[0] == (k, v));
        assert(t.drop_first() =~= Seq::<(Seq<char>, T)>::empty());
        assert(map_lookup(Seq::<(Seq<char>, T)>::empty(), k2) is None);
    } else if m[0].0 == k {
        let t = seq![(k, v)] + m.drop_first();
        assert(t[0] == (k, v));
        assert(t.drop_first() =~= m.drop_first());
    } else {
        lemma_map_lookup_upsert_other(m.drop_first(), k, v, k2);
        let t = seq![m[0]] + upsert_v(m.drop_first(), k, v);
        assert(t[0] == m[0]);
        assert(t.drop_first() =~= upsert_v(m.drop_first(), k, v));
    }
}

/// When the first entry keyed `k` sits at index `i`, the upsert is an update
/// in place at `i`.
proof fn lemma_upsert_is_update_at_first<T>(m: Seq<(Seq<char>, T)>, k: Seq<char>, v: T, i: int)
    requires
        0 <= i < m.len(),
        m[i].0 == k,
        forall|j: int| 0 <= j < i ==> #[trigger] m[j].0 != k,
    ensures
        upsert_v(m, k, v) == m.update(i, (k, v)),
    decreases i,
{
    if i == 0 {
        assert(upsert_v(m, k, v) == seq![(k, v)] + m.drop_first());
        assert(seq![(k, v)] + m.drop_first() =~= m.update(0, (k, v)));
    } else {
        assert(m[0].0 != k);
        assert(forall|j: int| 0 <= j < i - 1 ==> #[trigger] m.drop_first()[j].0 != k);
        lemma_upsert_is_update_at_first(m.drop_first(), k, v, i - 1);
        assert(upsert_v(m, k, v) == seq![m[0]] + m.drop_first().update(i - 1, (k, v)));
        assert(seq![m[0]] + m.drop_first().update(i - 1, (k, v)) =~= m.update(i, (k, v)));
    }
}

/// When no entry has key `k`, the upsert appends.
proof fn lemma_upsert_is_push_when_absent<T>(m: Seq<(Seq<char>, T)>, k: Seq<char>, v: T)
    requires
        forall|j: int| 0 <= j < m.len() ==> #[trigger] m[j].0 != k,
    ensures
        upsert_v(m, k, v) == m.push((k, v)),
    decreases m.len(),
{
    if m.len() == 0 {
        assert(upsert_v(m, k, v) =~= m.push((k, v)));
    } else {
        assert(m[0].0 != k);
        assert(forall|j: int| 0 <= j < m.len() - 1 ==> #[trigger] m.drop_first()[j].0 != k);
        lemma_upsert_is_push_when_absent(m.drop_first(), k, v);
        assert(upsert_v(m, k, v) == seq![m[0]] + m.drop_first().push((k, v)));
        assert(seq![m[0]] + m.drop_first().push((k, v)) =~= m.push((k, v)));
    }
}

/// Writes `value` under `key` into `m`.
pub fn upsert<V: View>(m: &mut Vec<Entry<V>>, key: &str, value: V)
    ensures
        map_view(final(m)@) == upsert_v(map_view(old(m)@), key@, value@),
{
    let ghost kv = key@;
    let ghost vv = value@;
    let n: usize = m.len();
    let mut i: usize = 0;
    while i < n
        invariant
            n == m@.len(),
            i <= n,
            m == old(m),
            key@ == kv,
            value@ == vv,
            forall|j: int| 0 <= j < i ==> #[trigger] map_view(m@)[j].0 != kv,
        decreases n - i,
    {
        proof {
            assert(map_view(m@)[i as int] == (m@[i as int].key@, m@[i as int].value@));
        }
        let ekey: &String = &m[i].key;
        let eq_here = str_eq(ekey.as_str(), key);
        if eq_here {
            let mut key_owned = String::new();
            key_owned.append(key);
            let entry = Entry { key: key_owned, value };
            let ghost ekv = entry.key@;
            let ghost evv = entry.value@;
            m.set(i, entry);
            proof {
                assert(ekv == kv);
                assert(evv == vv);
                assert(map_view(m@)[i as int] == (kv, vv));
                assert(map_view(m@) =~= map_view(old(m)@).update(i as int, (kv, vv)));
                lemma_upsert_is_update_at_first(map_view(old(m)@), kv, vv, i as int);
            }
            return ;
        }
        i = i + 1;
    }
    let mut key_owned = String::new();
    key_owned.append(key);
    m.push(Entry { key: key_owned, value });
    proof {
        assert(map_view(m@) =~= map_view(old(m)@).push((kv, vv)));
        lemma_upsert_is_push_when_absent(map_view(old(m)@), kv, vv);
    }
}

} // verus!
