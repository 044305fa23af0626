//! The carrier: the key/value store (for example a set of request headers)
//! that trace context is written into and read back from.
//!
//! A carrier is a sequence of entries; reading returns the value of the
//! first entry with the asked-for key, writing replaces that entry or
//! appends a new one.

use vstd::prelude::*;
use crate::strutil::str_eq;

verus! {

pub struct CarrierEntry {
    pub key: String,
    pub value: String,
}

impl View for CarrierEntry {
    type V = (Seq<char>, Seq<char>);

    open spec fn view(&self) -> (Seq<char>, Seq<char>) {
        (self.key@, self.value@)
    }
}

pub struct Carrier {
    pub entries: Vec<CarrierEntry>,
}

/// The value of the first entry of `s` whose key is `k`, if any.
pub open spec fn lookup(s: Seq<(Seq<char>, Seq<char>)>, k: Seq<char>) -> Option<Seq<char>>
    decreases s.len(),
{
    if s.len() == 0 {
        None
    } else if s[0].0 == k {
        Some(s[0].1)
    } else {
        lookup(s.drop_first(), k)
    }
}

/// `s` with the first `k` entry replaced by `(k, v)`, or `(k, v)` appended
/// when no entry has key `k`.
pub open spec fn store(s: Seq<(Seq<char>, Seq<char>)>, k: Seq<char>, v: Seq<char>) -> Seq<
    (Seq<char>, Seq<char>),
>
    decreases s.len(),
{
    if s.len() == 0 {
        seq![(k, v)]
    } else if s[0].0 == k {
        seq![(k, v)] + s.drop_first()
    } else {
        seq![s[0]] + store(s.drop_first(), k, v)
    }
}

/// Reading the key just stored gives the stored value.
pub proof fn lemma_lookup_store_same(s: Seq<(Seq<char>, Seq<char>)>, k: Seq<char>, v: Seq<char>)
    ensures
        lookup(store(s, k, v), k) == Some(v),
    decreases s.len(),
{
    if s.len() == 0 {
        assert(store(s, k, v) == seq![(k, v)]);
        assert(lookup(seq![(k, v)], k) == Some(v));
    } else if s[0].0 == k {
        let t = seq![(k, v)] + s.drop_first();
        assert(t[0] == (k, v));
        assert(lookup(t, k) == Some(v));
    } else {
        lemma_lookup_store_same(s.drop_first(), k, v);
        let t = seq![s[0]] + store(s.drop_first(), k, v);
        assert(t[0] == s[0]);
        assert(t.drop_first() =~= store(s.drop_first(), k, v));
    }
}

/// Storing under one key leaves every other key's value unchanged.
pub proof fn lemma_lookup_store_other(
    s: Seq<(Seq<char>, Seq<char>)>,
    k: Seq<char>,
    v: Seq<char>,
    k2: Seq<char>,
)
    requires
        k2 != k,
    ensures
        lookup(store(s, k, v), k2) == lookup(s, k2),
    decreases s.len(),
{
    if s.len() == 0 {
        let t = seq![(k, v)];
        assert(t[0] == (k, v));
        assert(t.drop_first() =~= Seq::<(Seq<char>, Seq<char>)>::empty());
        assert(lookup(Seq::<(Seq<char>, Seq<char>)>::empty(), k2) is None);
        assert(lookup(t, k2) is None);
    } else if s[0].0 == k {
        let t = seq![(k, v)] + s.drop_first();
        assert(t[0] == (k, v));
        assert(t.drop_first() =~= s.drop_first());
    } else {
        lemma_lookup_store_other(s.drop_first(), k, v, k2);
        let t = seq![s[0]] + store(s.drop_first(), k, v);
        assert(t[0] == s[0]);
        assert(t.drop_first() =~= store(s.drop_first(), k, v));
    }
}

impl View for Carrier {
    type V = Seq<(Seq<char>, Seq<char>)>;

    open spec fn view(&self) -> Seq<(Seq<char>, Seq<char>)> {
        Seq::new(self.entries@.len(), |i: int| (self.entries@[i].key@, self.entries@[i].value@))
    }
}

impl Carrier {
    /// An empty carrier.
    pub fn new() -> (r: Carrier)
        ensures
            r@ == Seq::<(Seq<char>, Seq<char>)>::empty(),
    {
        let r = Carrier { entries: Vec::new() };
        proof {
            assert(r@ =~= Seq::<(Seq<char>, Seq<char>)>::empty());
        }
        r
    }

    /// The value under `key`, if any: the first matching entry wins.
    pub fn get(&self, key: &str) -> (r: Option<String>)
        ensures
            match r {
                Some(v) => lookup(self@, key@) == Some(v@),
                None => lookup(self@, key@) is None,
            },
    {
        let n: usize = self.entries.len();
        let mut i: usize = 0;
        proof {
            assert(self@.skip(0) =~= self@);
        }
        while i < n
            invariant
                n == self.entries@.len(),
                i <= n,
                lookup(self@, key@) == lookup(self@.skip(i as int), key@),
            decreases n - i,
        {
            proof {
                assert(self@.skip(i as int)[0] == self@[i as int]);
            }
            if str_eq(self.entries[i].key.as_str(), key) {
                let ghost sk = self@.skip(i as int);
                proof {
                    assert(lookup(sk, key@) == Some(sk[0].1));
                }
                return Some(self.entries[i].value.clone());
            }
            proof {
                assert(self@.skip(i as int).drop_first() =~= self@.skip(i + 1));
            }
            i = i + 1;
        }
        proof {
            assert(self@.skip(n as int) =~= Seq::<(Seq<char>, Seq<char>)>::empty());
        }
        None
    }

    /// Stores `value` under `key`, replacing the first matching entry or
    /// appending a new one.
    pub fn set(&mut self, key: &str, value: String)
        ensures
            final(self)@ == store(old(self)@, key@, value@),
    {
        let ghost kv = key@;
        let ghost vv = value@;
        let n: usize = self.entries.len();
        let mut i: usize = 0;
        while i < n
            invariant
                n == self.entries@.len(),
                i <= n,
                self == old(self),
                value@ == vv,
                key@ == kv,
                forall|j: int| 0 <= j < i ==> #[trigger] self@[j].0 != kv,
            decreases n - i,
        {
            proof {
                assert(self@[i as int] == (self.entries@[i as int].key@,
                self.entries@[i as int].value@));
            }
            let ekey: &String = &self.entries[i].key;
            let eq_here = str_eq(ekey.as_str(), key);
            proof {
                assert(eq_here == (self.entries@[i as int].key@ == kv));
            }
            if eq_here {
                let entry = CarrierEntry { key: ekey.clone(), value };
                let ghost ekv = entry.key@;
                let ghost evv = entry.value@;
                proof {
                    assert(ekv == kv);
                    assert(evv == vv);
                }
                self.entries.set(i, entry);
                proof {
                    assert(self.entries@[i as int].key@ == ekv);
                    assert(self.entries@[i as int].value@ == evv);
                    assert(self@[i as int] == (kv, vv));
                    assert(self@ =~= old(self)@.update(i as int, (kv, vv)));
                    lemma_store_is_update_at_first(old(self)@, kv, vv, i as int);
                }
                return ;
            }
            proof {
                assert(self@[i as int].0 != kv);
            }
            i = i + 1;
        }
        let mut key_owned = String::new();
        key_owned.append(key);
        self.entries.push(CarrierEntry { key: key_owned, value });
        proof {
            assert(self@ =~= old(self)@.push((kv, vv)));
            lemma_store_is_push_when_absent(old(self)@, kv, vv);
        }
    }
}

/// When the first entry with key `k` sits at index `i`, `store` is an update
/// in place at `i`.
proof fn lemma_store_is_update_at_first(
    s: Seq<(Seq<char>, Seq<char>)>,
    k: Seq<char>,
    v: Seq<char>,
    i: int,
)
    requires
        0 <= i < s.len(),
        s[i].0 == k,
        forall|j: int| 0 <= j < i ==> #[trigger] s[j].0 != k,
    ensures
        store(s, k, v) == s.update(i, (k, v)),
    decreases i,
{
    if i == 0 {
        assert(store(s, k, v) == seq![(k, v)] + s.drop_first());
        assert(seq![(k, v)] + s.drop_first() =~= s.update(0, (k, v)));
    } else {
        assert(s[0].0 != k);
        assert(forall|j: int| 0 <= j < i - 1 ==> #[trigger] s.drop_first()[j].0 != k);
        lemma_store_is_update_at_first(s.drop_first(), k, v, i - 1);
        assert(store(s, k, v) == seq![s[0]] + s.drop_first().update(i - 1, (k, v)));
        assert(seq![s[0]] + s.drop_first().update(i - 1, (k, v)) =~= s.update(i, (k, v)));
    }
}

/// When no entry has key `k`, `store` appends.
proof fn lemma_store_is_push_when_absent(s: Seq<(Seq<char>, Seq<char>)>, k: Seq<char>, v: Seq<char>)
    requires
        forall|j: int| 0 <= j < s.len() ==> #[trigger] s[j].0 != k,
    ensures
        store(s, k, v) == s.push((k, v)),
    decreases s.len(),
{
    if s.len() == 0 {
        assert(store(s, k, v) =~= s.push((k, v)));
    } else {
        assert(s[0].0 != k);
        assert(forall|j: int| 0 <= j < s.len() - 1 ==> #[trigger] s.drop_first()[j].0 != k);
        lemma_store_is_push_when_absent(s.drop_first(), k, v);
        assert(store(s, k, v) == seq![s[0]] + s.drop_first().push((k, v)));
        assert(seq![s[0]] + s.drop_first().push((k, v)) =~= s.push((k, v)));
    }
}

} // verus!
