//! A registry of values by key that only grows: the schema cache and the
//! reflector registry of a client are both one.
use vstd::prelude::*;

verus! {

/// A key whose equality is equality of its view.
pub trait RegistryKey: View + Sized {
    fn same_key(&self, other: &Self) -> (r: bool)
        ensures
            r == (self@ == other@),
    ;
}

/// The value of the last entry with key `k`, if any.
pub open spec fn lookup_entries<K: View, V>(s: Seq<(K, V)>, k: K::V) -> Option<V>
    decreases s.len(),
{
    if s.len() == 0 {
        None
    } else if s.last().0@ == k {
        Some(s.last().1)
    } else {
        lookup_entries(s.drop_last(), k)
    }
}

/// The map after `get_or_insert(k, v)`: unchanged when `k` is present.
pub open spec fn after_get_or_insert<KV, V>(m: Map<KV, V>, k: KV, v: V) -> Map<KV, V> {
    if m.contains_key(k) {
        m
    } else {
        m.insert(k, v)
    }
}

/// Two `get_or_insert` calls for one key hand back the same value: the one
/// the first call registered or found.
pub proof fn lemma_get_or_insert_keeps_first<KV, V>(m: Map<KV, V>, k: KV, v1: V, v2: V)
    ensures
        after_get_or_insert(m, k, v1).contains_key(k),
        after_get_or_insert(after_get_or_insert(m, k, v1), k, v2) == after_get_or_insert(
            m,
            k,
            v1,
        ),
        after_get_or_insert(after_get_or_insert(m, k, v1), k, v2)[k] == after_get_or_insert(
            m,
            k,
            v1,
        )[k],
{
}

pub struct Registry<K, V> {
    entries: Vec<(K, V)>,
}

impl<K: View, V> View for Registry<K, V> {
    type V = Map<K::V, V>;

    closed spec fn view(&self) -> Map<K::V, V> {
        Map::new(
            |k: K::V| lookup_entries(self.entries@, k) is Some,
            |k: K::V| lookup_entries(self.entries@, k)->Some_0,
        )
    }
}

proof fn lemma_lookup_push<K: View, V>(s: Seq<(K, V)>, e: (K, V), k: K::V)
    ensures
        lookup_entries(s.push(e), k) == (if e.0@ == k {
            Some(e.1)
        } else {
            lookup_entries(s, k)
        }),
{
    assert(s.push(e).drop_last() =~= s);
}

proof fn lemma_lookup_update<K: View, V>(s: Seq<(K, V)>, i: int, e: (K, V), k: K::V)
    requires
        0 <= i < s.len(),
        s[i].0@ == e.0@,
        forall|j: int| i < j < s.len() ==> s[j].0@ != e.0@,
    ensures
        lookup_entries(s.update(i, e), k) == (if e.0@ == k {
            Some(e.1)
        } else {
            lookup_entries(s, k)
        }),
    decreases s.len(),
{
    let t = s.update(i, e);
    if i == s.len() - 1 {
        assert(t.drop_last() =~= s.drop_last());
    } else {
        assert(t.drop_last() =~= s.drop_last().update(i, e));
        lemma_lookup_update(s.drop_last(), i, e, k);
    }
}

impl<K: RegistryKey, V> Registry<K, V> {
    /// An empty registry.
    pub fn new() -> (r: Self)
        ensures
            r@ == Map::<K::V, V>::empty(),
    {
        let r = Registry { entries: Vec::new() };
        assert(r@ =~= Map::<K::V, V>::empty());
        r
    }

    /// The position of the last entry with key `k`.
    fn position(&self, k: &K) -> (r: Option<usize>)
        ensures
            match r {
                Some(i) => {
                    &&& i < self.entries@.len()
                    &&& self.entries@[i as int].0@ == k@
                    &&& forall|j: int| i < j < self.entries@.len() ==> self.entries@[j].0@ != k@
                    &&& lookup_entries(self.entries@, k@) == Some(self.entries@[i as int].1)
                },
                None => lookup_entries(self.entries@, k@) is None,
            },
    {
        let mut i: usize = self.entries.len();
        assert(self.entries@.take(i as int) =~= self.entries@);
        while i > 0
            invariant
                i <= self.entries@.len(),
                forall|j: int| i <= j < self.entries@.len() ==> self.entries@[j].0@ != k@,
                lookup_entries(self.entries@, k@) == lookup_entries(self.entries@.take(i as int), k@),
            decreases i,
        {
            let t = Ghost(self.entries@.take(i as int));
            assert(t@.drop_last() =~= self.entries@.take(i - 1));
            if self.entries[i - 1].0.same_key(k) {
                return Some(i - 1);
            }
            i = i - 1;
        }
        None
    }

    /// The value registered under `k`.
    pub fn lookup(&self, k: &K) -> (r: Option<&V>)
        ensures
            match r {
                Some(v) => self@.contains_key(k@) && self@[k@] == *v,
                None => !self@.contains_key(k@),
            },
    {
        match self.position(k) {
            Some(i) => Some(&self.entries[i].1),
            None => None,
        }
    }

    /// Registers `v` under `k`, replacing what was there.
    pub fn insert(&mut self, k: K, v: V)
        ensures
            final(self)@ == old(self)@.insert(k@, v),
    {
        let ghost kv = k@;
        match self.position(&k) {
            Some(i) => {
                let ghost s = self.entries@;
                self.entries.set(i, (k, v));
                proof {
                    assert forall|q: K::V| #[trigger]
                        lookup_entries(self.entries@, q) == (if kv == q {
                            Some(v)
                        } else {
                            lookup_entries(s, q)
                        }) by {
                        lemma_lookup_update(s, i as int, self.entries@[i as int], q);
                    }
                }
            },
            None => {
                let ghost s = self.entries@;
                self.entries.push((k, v));
                proof {
                    assert forall|q: K::V| #[trigger]
                        lookup_entries(self.entries@, q) == (if kv == q {
                            Some(v)
                        } else {
                            lookup_entries(s, q)
                        }) by {
                        lemma_lookup_push(s, self.entries@.last(), q);
                        assert(self.entries@ =~= s.push(self.entries@.last()));
                    }
                }
            },
        }
        assert(self@ =~= old(self)@.insert(kv, v));
    }

    /// The value registered under `k`; `v` is registered first when there
    /// is none, and dropped when there is one.
    pub fn get_or_insert(&mut self, k: K, v: V) -> (r: &V)
        ensures
            final(self)@ == after_get_or_insert(old(self)@, k@, v),
            final(self)@.contains_key(k@),
            *r == final(self)@[k@],
    {
        let ghost kv = k@;
        match self.position(&k) {
            Some(i) => &self.entries[i].1,
            None => {
                let ghost s = self.entries@;
                self.entries.push((k, v));
                proof {
                    assert forall|q: K::V| #[trigger]
                        lookup_entries(self.entries@, q) == (if kv == q {
                            Some(v)
                        } else {
                            lookup_entries(s, q)
                        }) by {
                        lemma_lookup_push(s, self.entries@.last(), q);
                        assert(self.entries@ =~= s.push(self.entries@.last()));
                    }
                    assert(self@ =~= old(self)@.insert(kv, v));
                }
                let n = self.entries.len();
                &self.entries[n - 1].1
            },
        }
    }
}

} // verus!
