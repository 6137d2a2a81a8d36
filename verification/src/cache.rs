//! A fixed-capacity cache of recently used entries.
//!
//! The cache holds at most `capacity` entries, kept in recency order, most
//! recently used first. A `put` of a new key into a full cache evicts the
//! least recently used entry; `get` makes the entry it reads the most
//! recently used one; `peek` and `contains` leave the order alone. With a
//! capacity of zero the cache accepts no entries.
use vstd::prelude::*;

verus! {

/// A key of the cache: keys are told apart by their views.
pub trait CacheKey: View + Sized {
    /// Whether `self` and `other` are the same key.
    fn same_key(&self, other: &Self) -> (r: bool)
        ensures
            r == (self@ == other@),
    ;
}

impl CacheKey for u32 {
    fn same_key(&self, other: &Self) -> (r: bool) {
        *self == *other
    }
}

impl CacheKey for u64 {
    fn same_key(&self, other: &Self) -> (r: bool) {
        *self == *other
    }
}

impl CacheKey for usize {
    fn same_key(&self, other: &Self) -> (r: bool) {
        *self == *other
    }
}

impl CacheKey for i32 {
    fn same_key(&self, other: &Self) -> (r: bool) {
        *self == *other
    }
}

impl CacheKey for i64 {
    fn same_key(&self, other: &Self) -> (r: bool) {
        *self == *other
    }
}

impl CacheKey for String {
    fn same_key(&self, other: &Self) -> (r: bool) {
        *self == *other
    }
}

/// The entries of a cache as key views and values, most recently used
/// first.
pub open spec fn model_of<K: View, V>(entries: Seq<(K, V)>) -> Seq<(K::V, V)> {
    entries.map_values(|e: (K, V)| (e.0@, e.1))
}

/// `model_of` keeps the length and views each key in place.
pub proof fn lemma_model_of<K: View, V>(entries: Seq<(K, V)>)
    ensures
        model_of(entries).len() == entries.len(),
        forall|i: int| 0 <= i < entries.len() ==> #[trigger] model_of(entries)[i] == (
        entries[i].0@, entries[i].1),
{
}

/// The position of key `k` in `m`, or -1 when it is absent.
pub open spec fn position_of<KV, V>(m: Seq<(KV, V)>, k: KV) -> int
    decreases m.len(),
{
    if m.len() == 0 {
        -1
    } else if m[0].0 == k {
        0
    } else {
        let p = position_of(m.drop_first(), k);
        if p < 0 {
            -1
        } else {
            p + 1
        }
    }
}

/// The value stored under `k`, if any.
pub open spec fn lookup<KV, V>(m: Seq<(KV, V)>, k: KV) -> Option<V> {
    let p = position_of(m, k);
    if p < 0 {
        None
    } else {
        Some(m[p].1)
    }
}

/// No key occurs twice.
pub open spec fn keys_unique<KV, V>(m: Seq<(KV, V)>) -> bool {
    forall|i: int, j: int| 0 <= i < j < m.len() ==> (#[trigger] m[i]).0 != (#[trigger] m[j]).0
}

/// The entries after `put(k, v)` into a cache of capacity `cap`: nothing
/// changes when the capacity is zero; otherwise `(k, v)` becomes the most
/// recently used entry, replacing an entry of the same key, or, when the key
/// is new and the cache is full, evicting the least recently used entry.
pub open spec fn put_model<KV, V>(m: Seq<(KV, V)>, cap: nat, k: KV, v: V) -> Seq<(KV, V)> {
    let p = position_of(m, k);
    if cap == 0 {
        m
    } else if p >= 0 {
        seq![(k, v)] + m.remove(p)
    } else if m.len() >= cap {
        seq![(k, v)] + m.drop_last()
    } else {
        seq![(k, v)] + m
    }
}

/// The entries after reading `k`: a present entry moves to the front.
pub open spec fn touch_model<KV, V>(m: Seq<(KV, V)>, k: KV) -> Seq<(KV, V)> {
    let p = position_of(m, k);
    if p >= 0 {
        seq![m[p]] + m.remove(p)
    } else {
        m
    }
}

/// The entries after removing `k`.
pub open spec fn remove_model<KV, V>(m: Seq<(KV, V)>, k: KV) -> Seq<(KV, V)> {
    let p = position_of(m, k);
    if p >= 0 {
        m.remove(p)
    } else {
        m
    }
}

/// `position_of` finds the key at the position it names, and nothing
/// earlier; -1 means the key is absent.
pub proof fn lemma_position_of<KV, V>(m: Seq<(KV, V)>, k: KV)
    ensures
        -1 <= position_of(m, k) < m.len(),
        position_of(m, k) >= 0 ==> m[position_of(m, k)].0 == k,
        forall|i: int| 0 <= i < m.len() && i < position_of(m, k) ==> (#[trigger] m[i]).0 != k,
        position_of(m, k) < 0 ==> forall|i: int| 0 <= i < m.len() ==> (#[trigger] m[i]).0 != k,
    decreases m.len(),
{
    if m.len() > 0 && m[0].0 != k {
        lemma_position_of(m.drop_first(), k);
        assert forall|i: int| 0 < i < m.len() implies (#[trigger] m[i]).0 == m.drop_first()[i
            - 1].0 by {}
    }
}

/// In a sequence without repeated keys, a key found at `i` is at
/// `position_of`.
pub proof fn lemma_position_unique<KV, V>(m: Seq<(KV, V)>, k: KV, i: int)
    requires
        keys_unique(m),
        0 <= i < m.len(),
        m[i].0 == k,
    ensures
        position_of(m, k) == i,
{
    lemma_position_of(m, k);
}

/// Putting an entry whose key no other entry has in front keeps the keys
/// unique.
pub proof fn lemma_keys_unique_push_front<KV, V>(m: Seq<(KV, V)>, e: (KV, V))
    requires
        keys_unique(m),
        forall|j: int| 0 <= j < m.len() ==> (#[trigger] m[j]).0 != e.0,
    ensures
        keys_unique(seq![e] + m),
{
    let n = seq![e] + m;
    assert forall|i: int, j: int| 0 <= i < j < n.len() implies (#[trigger] n[i]).0 != (
    #[trigger] n[j]).0 by {
        assert(n[j] == m[j - 1]);
        if i > 0 {
            assert(n[i] == m[i - 1]);
        }
    }
}

/// Removing an entry keeps the keys unique.
pub proof fn lemma_keys_unique_remove<KV, V>(m: Seq<(KV, V)>, p: int)
    requires
        keys_unique(m),
        0 <= p < m.len(),
    ensures
        keys_unique(m.remove(p)),
{
    let n = m.remove(p);
    assert forall|i: int, j: int| 0 <= i < j < n.len() implies (#[trigger] n[i]).0 != (
    #[trigger] n[j]).0 by {
        let a = if i < p { i } else { i + 1 };
        let b = if j < p { j } else { j + 1 };
        assert(n[i] == m[a]);
        assert(n[j] == m[b]);
    }
}

/// Moving the entry at `p` to the front keeps the keys unique.
pub proof fn lemma_keys_unique_front<KV, V>(m: Seq<(KV, V)>, p: int)
    requires
        keys_unique(m),
        0 <= p < m.len(),
    ensures
        keys_unique(seq![m[p]] + m.remove(p)),
{
    lemma_keys_unique_remove(m, p);
    let n = m.remove(p);
    assert forall|j: int| 0 <= j < n.len() implies (#[trigger] n[j]).0 != m[p].0 by {
        if j < p {
            assert(n[j] == m[j]);
        } else {
            assert(n[j] == m[j + 1]);
        }
    }
    lemma_keys_unique_push_front(n, m[p]);
}

/// What is left of `m` before the new entry goes in front lacks its key:
/// the entry of the key was removed, or there was none.
proof fn lemma_rest_lacks_key<KV, V>(m: Seq<(KV, V)>, k: KV, rest: Seq<(KV, V)>)
    requires
        keys_unique(m),
        (position_of(m, k) >= 0 && rest == m.remove(position_of(m, k))) || (position_of(m, k) < 0
            && (rest == m || (m.len() > 0 && rest == m.drop_last()))),
    ensures
        forall|j: int| 0 <= j < rest.len() ==> (#[trigger] rest[j]).0 != k,
{
    lemma_position_of(m, k);
    let p = position_of(m, k);
    assert forall|j: int| 0 <= j < rest.len() implies (#[trigger] rest[j]).0 != k by {
        if p >= 0 {
            if j < p {
                assert(rest[j] == m[j]);
            } else {
                assert(rest[j] == m[j + 1]);
                assert(m[p].0 == k);
            }
        } else {
            assert(rest[j] == m[j]);
        }
    }
}

/// A cache that holds at most `capacity` entries, most recently used
/// first.
pub struct LruCache<K, V> {
    capacity: usize,
    entries: Vec<(K, V)>,
}

impl<K: CacheKey, V> LruCache<K, V> {
    /// The entries as key views and values, most recently used first.
    pub closed spec fn entries(&self) -> Seq<(K::V, V)> {
        model_of(self.entries@)
    }

    /// The capacity.
    pub closed spec fn capacity(&self) -> nat {
        self.capacity as nat
    }

    /// The cache's invariant: no more entries than the capacity, and no key
    /// twice.
    pub open spec fn wf(&self) -> bool {
        &&& self.entries().len() <= self.capacity()
        &&& keys_unique(self.entries())
    }

    /// An empty cache that holds at most `capacity` entries.
    pub fn new(capacity: usize) -> (r: Self)
        ensures
            r.wf(),
            r.capacity() == capacity,
            r.entries() == Seq::<(K::V, V)>::empty(),
    {
        let r = LruCache { capacity, entries: Vec::new() };
        assert(r.entries() =~= Seq::<(K::V, V)>::empty());
        r
    }

    /// The capacity.
    pub fn get_capacity(&self) -> (r: usize)
        ensures
            r == self.capacity(),
    {
        self.capacity
    }

    /// The number of entries.
    pub fn len(&self) -> (r: usize)
        ensures
            r == self.entries().len(),
    {
        self.entries.len()
    }

    /// Whether the cache holds no entry.
    pub fn is_empty(&self) -> (r: bool)
        ensures
            r == (self.entries().len() == 0),
    {
        self.entries.len() == 0
    }

    /// Where `key` stands in the recency order, if it is cached.
    fn find(&self, key: &K) -> (r: Option<usize>)
        ensures
            r matches Some(i) ==> position_of(self.entries(), key@) == i,
            r is None ==> position_of(self.entries(), key@) == -1,
    {
        let ghost m = self.entries();
        proof {
            lemma_model_of(self.entries@);
            lemma_position_of(m, key@);
        }
        let mut i: usize = 0;
        while i < self.entries.len()
            invariant
                m == self.entries(),
                i <= self.entries@.len(),
                m.len() == self.entries@.len(),
                forall|j: int| 0 <= j < i ==> (#[trigger] m[j]).0 != key@,
                -1 <= position_of(m, key@) < m.len(),
                position_of(m, key@) >= 0 ==> m[position_of(m, key@)].0 == key@,
                forall|j: int| 0 <= j < m.len() && j < position_of(m, key@) ==> (#[trigger] m[j]).0
                    != key@,
                position_of(m, key@) < 0 ==> forall|j: int| 0 <= j < m.len() ==> (#[trigger] m[
                    j]).0 != key@,
            decreases self.entries@.len() - i,
        {
            assert(m[i as int].0 == self.entries@[i as int].0@);
            if self.entries[i].0.same_key(key) {
                return Some(i);
            }
            i = i + 1;
        }
        None
    }

    /// Whether `key` is cached; the recency order is left alone.
    pub fn contains(&self, key: &K) -> (r: bool)
        ensures
            r == (lookup(self.entries(), key@) is Some),
    {
        self.find(key).is_some()
    }

    /// The value cached under `key`, without changing the recency order.
    pub fn peek(&self, key: &K) -> (r: Option<&V>)
        ensures
            r is Some <==> lookup(self.entries(), key@) is Some,
            r matches Some(v) ==> lookup(self.entries(), key@) == Some(*v),
    {
        match self.find(key) {
            Some(i) => {
                proof {
                    lemma_model_of(self.entries@);
                    lemma_position_of(self.entries(), key@);
                }
                Some(&self.entries[i].1)
            },
            None => None,
        }
    }

    /// The value cached under `key`; a cached entry becomes the most
    /// recently used one.
    pub fn get(&mut self, key: &K) -> (r: Option<&V>)
        requires
            old(self).wf(),
        ensures
            final(self).wf(),
            final(self).capacity() == old(self).capacity(),
            final(self).entries() == touch_model(old(self).entries(), key@),
            r is Some <==> lookup(old(self).entries(), key@) is Some,
            r matches Some(v) ==> lookup(old(self).entries(), key@) == Some(*v),
    {
        let ghost m = self.entries();
        proof {
            lemma_model_of(self.entries@);
            lemma_position_of(m, key@);
        }
        match self.find(key) {
            Some(i) => {
                let entry = self.entries.remove(i);
                self.entries.insert(0, entry);
                proof {
                    lemma_model_of(self.entries@);
                    assert(self.entries() =~= seq![m[i as int]] + m.remove(i as int));
                    lemma_keys_unique_front(m, i as int);
                }
                Some(&self.entries[0].1)
            },
            None => None,
        }
    }

    /// Caches `value` under `key` as the most recently used entry. An entry
    /// of the same key is replaced; a new key in a full cache evicts the
    /// least recently used entry; with a capacity of zero nothing is kept.
    pub fn put(&mut self, key: K, value: V)
        requires
            old(self).wf(),
        ensures
            final(self).wf(),
            final(self).capacity() == old(self).capacity(),
            final(self).entries() == put_model(
                old(self).entries(),
                old(self).capacity(),
                key@,
                value,
            ),
    {
        let ghost m = self.entries();
        let ghost k = key@;
        if self.capacity == 0 {
            return;
        }
        proof {
            lemma_model_of(self.entries@);
            lemma_position_of(m, k);
        }
        let ghost rest: Seq<(K::V, V)>;
        match self.find(&key) {
            Some(i) => {
                self.entries.remove(i);
                proof {
                    lemma_model_of(self.entries@);
                    rest = m.remove(i as int);
                    assert(self.entries() =~= rest);
                }
            },
            None => {
                if self.entries.len() >= self.capacity {
                    self.entries.pop();
                    proof {
                        lemma_model_of(self.entries@);
                        rest = m.drop_last();
                        assert(self.entries() =~= rest);
                    }
                } else {
                    proof {
                        rest = m;
                    }
                }
            },
        }
        proof {
            assert(forall|j: int| 0 <= j < rest.len() ==> (#[trigger] rest[j]).0 != k) by {
                lemma_rest_lacks_key(m, k, rest);
            }
        }
        self.entries.insert(0, (key, value));
        proof {
            lemma_model_of(self.entries@);
            assert(self.entries() =~= seq![(k, value)] + rest);
            lemma_keys_unique_push_front(rest, (k, value));
        }
    }

    /// Removes the entry of `key`, returning its value.
    pub fn remove(&mut self, key: &K) -> (r: Option<V>)
        requires
            old(self).wf(),
        ensures
            final(self).wf(),
            final(self).capacity() == old(self).capacity(),
            final(self).entries() == remove_model(old(self).entries(), key@),
            r == lookup(old(self).entries(), key@),
    {
        let ghost m = self.entries();
        proof {
            lemma_model_of(self.entries@);
            lemma_position_of(m, key@);
        }
        match self.find(key) {
            Some(i) => {
                let entry = self.entries.remove(i);
                proof {
                    lemma_model_of(self.entries@);
                    assert(self.entries() =~= m.remove(i as int));
                    lemma_keys_unique_remove(m, i as int);
                }
                Some(entry.1)
            },
            None => None,
        }
    }
}

/// A read after a write gives back what was written: after `put(k, v)` into
/// a cache with room for at least one entry, `k` is cached with `v`.
pub proof fn law_lookup_after_put<KV, V>(m: Seq<(KV, V)>, cap: nat, k: KV, v: V)
    requires
        keys_unique(m),
        m.len() <= cap,
        cap > 0,
    ensures
        lookup(put_model(m, cap, k, v), k) == Some(v),
        position_of(put_model(m, cap, k, v), k) == 0,
{
}

/// A put leaves every other key as it was, except the least recently used
/// entry, which a new key evicts from a full cache.
pub proof fn law_put_keeps_other_keys<KV, V>(m: Seq<(KV, V)>, cap: nat, k: KV, v: V, other: KV)
    requires
        keys_unique(m),
        m.len() <= cap,
        other != k,
    ensures
        lookup(put_model(m, cap, k, v), other) == if cap > 0 && position_of(m, k) < 0 && m.len()
            >= cap && m.last().0 == other {
            None
        } else {
            lookup(m, other)
        },
{
    lemma_position_of(m, k);
    lemma_position_of(m, other);
    let n = put_model(m, cap, k, v);
    lemma_position_of(n, other);
    let p = position_of(m, k);
    let q = position_of(m, other);
    if cap > 0 {
        let rest = if p >= 0 {
            m.remove(p)
        } else if m.len() >= cap {
            m.drop_last()
        } else {
            m
        };
        assert(n == seq![(k, v)] + rest);
        assert(forall|j: int| 0 <= j < rest.len() ==> #[trigger] n[j + 1] == rest[j]);
        if q >= 0 {
            let r = if p >= 0 && p < q {
                q - 1
            } else {
                q
            };
            if r < rest.len() {
                assert(rest[r] == m[q]);
                assert(n[r + 1] == m[q]);
                lemma_rest_lacks_key(m, k, rest);
                if p >= 0 {
                    lemma_keys_unique_remove(m, p);
                } else if m.len() >= cap {
                    assert(keys_unique(rest));
                }
                lemma_keys_unique_push_front(rest, (k, v));
                lemma_position_unique(n, other, r + 1);
            } else {
                assert(q == m.len() - 1);
            }
        } else {
            assert forall|j: int| 0 <= j < n.len() implies (#[trigger] n[j]).0 != other by {
                if j > 0 {
                    let a = if p >= 0 && j - 1 >= p {
                        j
                    } else {
                        j - 1
                    };
                    assert(rest[j - 1] == m[a]);
                }
            }
        }
    }
}

/// A new key put into a full cache evicts exactly the least recently used
/// entry: the rest keep their order behind the new entry.
pub proof fn law_put_evicts_least_recent<KV, V>(m: Seq<(KV, V)>, cap: nat, k: KV, v: V)
    requires
        keys_unique(m),
        m.len() == cap,
        cap > 0,
        lookup(m, k) is None,
    ensures
        put_model(m, cap, k, v) == seq![(k, v)] + m.drop_last(),
        put_model(m, cap, k, v).len() == cap,
{
}

/// A put never lets the cache grow past its capacity.
pub proof fn law_put_within_capacity<KV, V>(m: Seq<(KV, V)>, cap: nat, k: KV, v: V)
    requires
        m.len() <= cap,
    ensures
        put_model(m, cap, k, v).len() <= cap,
{
    lemma_position_of(m, k);
}

/// A cache of capacity zero keeps nothing.
pub proof fn law_zero_capacity_keeps_nothing<KV, V>(m: Seq<(KV, V)>, k: KV, v: V)
    requires
        m.len() == 0,
    ensures
        put_model(m, 0, k, v).len() == 0,
        lookup(put_model(m, 0, k, v), k) is None,
{
}

/// Reading a cached key makes it the most recently used entry and changes
/// no key's value, the read key's included.
pub proof fn law_get_promotes<KV, V>(m: Seq<(KV, V)>, k: KV, other: KV)
    requires
        keys_unique(m),
        lookup(m, k) is Some,
    ensures
        touch_model(m, k)[0].0 == k,
        touch_model(m, k).len() == m.len(),
        lookup(touch_model(m, k), other) == lookup(m, other),
{
    lemma_position_of(m, k);
    lemma_position_of(m, other);
    let p = position_of(m, k);
    let q = position_of(m, other);
    let n = touch_model(m, k);
    assert(n == seq![m[p]] + m.remove(p));
    lemma_keys_unique_front(m, p);
    lemma_position_of(n, other);
    if q >= 0 {
        let r = if q == p {
            0
        } else if q < p {
            q + 1
        } else {
            q
        };
        assert(n[r] == m[q]);
        lemma_position_unique(n, other, r);
    } else {
        assert forall|j: int| 0 <= j < n.len() implies (#[trigger] n[j]).0 != other by {
            if j == 0 {
                assert(n[0] == m[p]);
            } else if j - 1 < p {
                assert(n[j] == m[j - 1]);
            } else {
                assert(n[j] == m[j]);
            }
        }
    }
}

/// Reading a key changes no other recency: any two other cached keys keep
/// their order, and the least recently used entry stays last unless it was
/// the one read, so the next eviction removes the entry it would have
/// removed before the read.
pub proof fn law_get_keeps_order_of_others<KV, V>(m: Seq<(KV, V)>, k: KV, a: KV, b: KV)
    requires
        keys_unique(m),
        lookup(m, k) is Some,
        lookup(m, a) is Some,
        lookup(m, b) is Some,
        a != k,
        b != k,
    ensures
        position_of(touch_model(m, k), a) < position_of(touch_model(m, k), b) <==> position_of(
            m,
            a,
        ) < position_of(m, b),
        m.last().0 != k ==> touch_model(m, k).last() == m.last(),
{
    lemma_position_of(m, k);
    lemma_position_of(m, a);
    lemma_position_of(m, b);
    let p = position_of(m, k);
    let n = touch_model(m, k);
    assert(n == seq![m[p]] + m.remove(p));
    lemma_keys_unique_front(m, p);
    let pa = position_of(m, a);
    let pb = position_of(m, b);
    let ra = if pa < p {
        pa + 1
    } else {
        pa
    };
    let rb = if pb < p {
        pb + 1
    } else {
        pb
    };
    assert(n[ra] == m[pa]);
    assert(n[rb] == m[pb]);
    lemma_position_unique(n, a, ra);
    lemma_position_unique(n, b, rb);
    if m.last().0 != k {
        assert(p != m.len() - 1);
        assert(n[n.len() - 1] == m[m.len() - 1]);
    }
}

/// After a key is removed it is no longer cached.
pub proof fn law_lookup_after_remove<KV, V>(m: Seq<(KV, V)>, k: KV)
    requires
        keys_unique(m),
    ensures
        lookup(remove_model(m, k), k) is None,
{
    lemma_position_of(m, k);
    let p = position_of(m, k);
    let n = remove_model(m, k);
    lemma_position_of(n, k);
    if p >= 0 {
        if position_of(n, k) >= 0 {
            let j = position_of(n, k);
            if j < p {
                assert(n[j] == m[j]);
            } else {
                assert(n[j] == m[j + 1]);
            }
        }
    }
}

} // verus!
