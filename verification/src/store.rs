//! A small keyed list: an insertion-ordered map from keys to values.
//!
//! The model of a list is the sequence of its `(key, value view)` pairs. A
//! well-formed list holds every key at most once, so the sequence reads as a
//! finite map whose entries keep the order in which their keys arrived.

use vstd::prelude::*;

verus! {

/// A key: copied freely and compared in executable code.
pub trait Key: Copy {
    fn same(&self, other: &Self) -> (b: bool)
        ensures
            b == (*self == *other),
    ;
}

impl Key for usize {
    fn same(&self, other: &usize) -> (b: bool) {
        *self == *other
    }
}

/// Some pair of `s` has the key `k`.
pub open spec fn has_key<K, W>(s: Seq<(K, W)>, k: K) -> bool {
    exists|i: int| 0 <= i < s.len() && (#[trigger] s[i]).0 == k
}

/// An index at which `s` has the key `k` (the only one in a well-formed list).
pub open spec fn index_of_key<K, W>(s: Seq<(K, W)>, k: K) -> int {
    choose|i: int| 0 <= i < s.len() && (#[trigger] s[i]).0 == k
}

/// The value stored under `k`.
pub open spec fn lookup<K, W>(s: Seq<(K, W)>, k: K) -> Option<W> {
    if has_key(s, k) {
        Some(s[index_of_key(s, k)].1)
    } else {
        None
    }
}

/// `s` with `w` stored under `k`: in place where the key is present, at the
/// end where it is new.
pub open spec fn put<K, W>(s: Seq<(K, W)>, k: K, w: W) -> Seq<(K, W)> {
    if has_key(s, k) {
        s.update(index_of_key(s, k), (k, w))
    } else {
        s.push((k, w))
    }
}

/// `s` without the pair of key `k`.
pub open spec fn without<K, W>(s: Seq<(K, W)>, k: K) -> Seq<(K, W)> {
    if has_key(s, k) {
        s.remove(index_of_key(s, k))
    } else {
        s
    }
}

/// No key occurs twice.
pub open spec fn distinct_keys<K, W>(s: Seq<(K, W)>) -> bool {
    forall|i: int, j: int| 0 <= i < j < s.len() ==> (#[trigger] s[i]).0 != (#[trigger] s[j]).0
}

/// The model of a sequence of stored pairs.
pub open spec fn pairs<K, V: View>(items: Seq<(K, V)>) -> Seq<(K, V::V)> {
    items.map_values(|e: (K, V)| (e.0, e.1@))
}

/// In a list with distinct keys, the index of a key is the one index that
/// holds it.
pub proof fn lemma_index_of_key<K, W>(s: Seq<(K, W)>, k: K, i: int)
    requires
        distinct_keys(s),
        0 <= i < s.len(),
        s[i].0 == k,
    ensures
        has_key(s, k),
        index_of_key(s, k) == i,
        lookup(s, k) == Some(s[i].1),
{
    let j = index_of_key(s, k);
    assert(s[j].0 == k);
    if j != i {
        if j < i {
            assert(s[j].0 != s[i].0);
        } else {
            assert(s[i].0 != s[j].0);
        }
    }
}

/// `put` keeps the keys distinct and changes the value under one key only.
pub proof fn lemma_put<K, W>(s: Seq<(K, W)>, k: K, w: W, other: K)
    requires
        distinct_keys(s),
    ensures
        distinct_keys(put(s, k, w)),
        lookup(put(s, k, w), k) == Some(w),
        other != k ==> lookup(put(s, k, w), other) == lookup(s, other),
        has_key(put(s, k, w), other) == (other == k || has_key(s, other)),
{
    let t = put(s, k, w);
    if has_key(s, k) {
        let i = index_of_key(s, k);
        assert(s[i].0 == k);
        assert forall|a: int, b: int| 0 <= a < b < t.len() implies (#[trigger] t[a]).0 != (
        #[trigger] t[b]).0 by {
            assert(t[a].0 == s[a].0);
            assert(t[b].0 == s[b].0);
        }
        assert(t[i].0 == k);
        lemma_index_of_key(t, k, i);
        if has_key(s, other) {
            let j = index_of_key(s, other);
            assert(s[j].0 == other);
            assert(t[j].0 == other);
            lemma_index_of_key(t, other, j);
        }
        if has_key(t, other) {
            let j = index_of_key(t, other);
            assert(t[j].0 == other);
            assert(s[j].0 == other);
        }
    } else {
        assert forall|a: int, b: int| 0 <= a < b < t.len() implies (#[trigger] t[a]).0 != (
        #[trigger] t[b]).0 by {
            if b == s.len() {
                assert(s[a].0 != k);
            } else {
                assert(s[a].0 != s[b].0);
            }
        }
        assert(t[s.len() as int].0 == k);
        lemma_index_of_key(t, k, s.len() as int);
        if has_key(s, other) {
            let j = index_of_key(s, other);
            assert(s[j].0 == other);
            assert(t[j].0 == other);
            lemma_index_of_key(t, other, j);
        }
        if has_key(t, other) && other != k {
            let j = index_of_key(t, other);
            assert(t[j].0 == other);
            assert(s[j].0 == other);
        }
    }
}

/// `without` keeps the keys distinct and forgets one key only.
pub proof fn lemma_without<K, W>(s: Seq<(K, W)>, k: K, other: K)
    requires
        distinct_keys(s),
    ensures
        distinct_keys(without(s, k)),
        lookup(without(s, k), k) is None,
        other != k ==> lookup(without(s, k), other) == lookup(s, other),
{
    let t = without(s, k);
    if has_key(s, k) {
        let i = index_of_key(s, k);
        assert(s[i].0 == k);
        assert forall|a: int, b: int| 0 <= a < b < t.len() implies (#[trigger] t[a]).0 != (
        #[trigger] t[b]).0 by {
            let a0 = if a < i {
                a
            } else {
                a + 1
            };
            let b0 = if b < i {
                b
            } else {
                b + 1
            };
            assert(t[a] == s[a0]);
            assert(t[b] == s[b0]);
            assert(s[a0].0 != s[b0].0);
        }
        if has_key(t, k) {
            let j = index_of_key(t, k);
            let j0 = if j < i {
                j
            } else {
                j + 1
            };
            assert(t[j] == s[j0]);
            lemma_index_of_key(s, k, j0);
        }
        if other != k {
            if has_key(s, other) {
                let j = index_of_key(s, other);
                assert(s[j].0 == other);
                let j1 = if j < i {
                    j
                } else {
                    j - 1
                };
                assert(t[j1] == s[j]);
                lemma_index_of_key(t, other, j1);
            }
            if has_key(t, other) {
                let j = index_of_key(t, other);
                let j0 = if j < i {
                    j
                } else {
                    j + 1
                };
                assert(t[j] == s[j0]);
                lemma_index_of_key(s, other, j0);
            }
        }
    }
}

/// The pairs of `s` whose key is wanted, in their order.
pub open spec fn keep<K, W>(s: Seq<(K, W)>, wanted: Set<K>) -> Seq<(K, W)>
    decreases s.len(),
{
    if s.len() == 0 {
        s
    } else if wanted.contains(s[0].0) {
        seq![s[0]] + keep(s.drop_first(), wanted)
    } else {
        keep(s.drop_first(), wanted)
    }
}

/// How a list with one more pair in front reads.
pub proof fn lemma_cons<K, W>(h: (K, W), t: Seq<(K, W)>, k: K)
    ensures
        has_key(seq![h] + t, k) == (h.0 == k || has_key(t, k)),
        distinct_keys(seq![h] + t) == (distinct_keys(t) && !has_key(t, h.0)),
        distinct_keys(seq![h] + t) ==> lookup(seq![h] + t, k) == if h.0 == k {
            Some(h.1)
        } else {
            lookup(t, k)
        },
{
    let c = seq![h] + t;
    assert(c[0] == h);
    assert forall|i: int| 0 <= i < t.len() implies #[trigger] c[i + 1] == t[i] by {}
    if has_key(c, k) {
        let i = index_of_key(c, k);
        assert(c[i].0 == k);
        if i > 0 {
            assert(c[(i - 1) + 1] == t[i - 1]);
            assert(t[i - 1].0 == k);
        }
    }
    if has_key(t, k) {
        let j = index_of_key(t, k);
        assert(t[j].0 == k);
        assert(c[j + 1].0 == k);
    }
    if distinct_keys(c) {
        assert forall|a: int, b: int| 0 <= a < b < t.len() implies (#[trigger] t[a]).0 != (
        #[trigger] t[b]).0 by {
            assert(c[a + 1] == t[a]);
            assert(c[b + 1] == t[b]);
            assert(c[a + 1].0 != c[b + 1].0);
        }
        if has_key(t, h.0) {
            let j = index_of_key(t, h.0);
            assert(t[j].0 == h.0);
            assert(c[j + 1] == t[j]);
            assert(c[0].0 != c[j + 1].0);
        }
        if h.0 == k {
            lemma_index_of_key(c, k, 0);
        } else if has_key(t, k) {
            let j = index_of_key(t, k);
            assert(t[j].0 == k);
            assert(c[j + 1] == t[j]);
            lemma_index_of_key(c, k, j + 1);
        }
    }
    if distinct_keys(t) && !has_key(t, h.0) {
        assert forall|a: int, b: int| 0 <= a < b < c.len() implies (#[trigger] c[a]).0 != (
        #[trigger] c[b]).0 by {
            assert(c[(b - 1) + 1] == t[b - 1]);
            if a == 0 {
                assert(t[b - 1].0 != h.0);
            } else {
                assert(c[(a - 1) + 1] == t[a - 1]);
                assert(t[a - 1].0 != t[b - 1].0);
            }
        }
    }
}

/// `keep` keeps the keys distinct, forgets the unwanted keys and leaves the
/// values of the wanted ones.
pub proof fn lemma_keep<K, W>(s: Seq<(K, W)>, wanted: Set<K>, k: K)
    requires
        distinct_keys(s),
    ensures
        distinct_keys(keep(s, wanted)),
        has_key(keep(s, wanted), k) == (wanted.contains(k) && has_key(s, k)),
        lookup(keep(s, wanted), k) == if wanted.contains(k) {
            lookup(s, k)
        } else {
            None
        },
    decreases s.len(),
{
    if s.len() > 0 {
        let h = s[0];
        let t = s.drop_first();
        assert(s =~= seq![h] + t);
        lemma_cons(h, t, k);
        lemma_cons(h, t, h.0);
        lemma_keep(t, wanted, k);
        lemma_keep(t, wanted, h.0);
        if wanted.contains(h.0) {
            lemma_cons(h, keep(t, wanted), k);
            lemma_cons(h, keep(t, wanted), h.0);
        }
    }
}

/// An insertion-ordered map with few entries, searched from the front.
pub struct KeyedList<K, V> {
    items: Vec<(K, V)>,
}

impl<K: Key, V: View> View for KeyedList<K, V> {
    type V = Seq<(K, V::V)>;

    closed spec fn view(&self) -> Seq<(K, V::V)> {
        pairs(self.items@)
    }
}

impl<K: Key, V: View> KeyedList<K, V> {
    /// Every key is held at most once.
    pub open spec fn wf(&self) -> bool {
        distinct_keys(self@)
    }

    /// A list without pairs.
    pub fn new() -> (list: Self)
        ensures
            list@ == Seq::<(K, V::V)>::empty(),
            list.wf(),
    {
        let list = KeyedList { items: Vec::new() };
        assert(list@ =~= Seq::<(K, V::V)>::empty());
        list
    }

    /// The number of pairs.
    pub fn len(&self) -> (n: usize)
        ensures
            n == self@.len(),
    {
        self.items.len()
    }

    /// Whether the list holds no pair.
    pub fn is_empty(&self) -> (b: bool)
        ensures
            b == (self@.len() == 0),
    {
        self.items.len() == 0
    }

    /// The key of the pair at index `i`.
    pub fn key_at(&self, i: usize) -> (k: K)
        requires
            i < self@.len(),
        ensures
            k == self@[i as int].0,
    {
        self.items[i].0
    }

    /// The value of the pair at index `i`.
    pub fn value_at(&self, i: usize) -> (v: &V)
        requires
            i < self@.len(),
        ensures
            v@ == self@[i as int].1,
    {
        &self.items[i].1
    }

    /// The index that holds `k`.
    pub fn position(&self, k: &K) -> (r: Option<usize>)
        ensures
            match r {
                Some(i) => i < self@.len() && self@[i as int].0 == *k,
                None => !has_key(self@, *k),
            },
    {
        let mut i: usize = 0;
        while i < self.items.len()
            invariant
                i <= self.items.len(),
                forall|j: int| 0 <= j < i ==> (#[trigger] self@[j]).0 != *k,
            decreases self.items.len() - i,
        {
            if self.items[i].0.same(k) {
                return Some(i);
            }
            i += 1;
        }
        None
    }

    /// Whether a value is stored under `k`.
    pub fn contains_key(&self, k: &K) -> (b: bool)
        ensures
            b == has_key(self@, *k),
    {
        self.position(k).is_some()
    }

    /// The value stored under `k`.
    pub fn get(&self, k: &K) -> (r: Option<&V>)
        requires
            self.wf(),
        ensures
            match r {
                Some(v) => lookup(self@, *k) == Some(v@),
                None => lookup(self@, *k) is None,
            },
    {
        match self.position(k) {
            Some(i) => {
                proof {
                    lemma_index_of_key(self@, *k, i as int);
                }
                Some(&self.items[i].1)
            },
            None => None,
        }
    }

    /// Stores `v` under `k`, in place of what was there.
    pub fn insert(&mut self, k: K, v: V)
        requires
            old(self).wf(),
        ensures
            final(self)@ == put(old(self)@, k, v@),
            final(self).wf(),
    {
        proof {
            lemma_put(self@, k, v@, k);
        }
        match self.position(&k) {
            Some(i) => {
                proof {
                    lemma_index_of_key(self@, k, i as int);
                }
                self.items.set(i, (k, v));
                assert(self@ =~= put(old(self)@, k, v@));
            },
            None => {
                self.items.push((k, v));
                assert(self@ =~= put(old(self)@, k, v@));
            },
        }
    }

    /// Takes the pair at index `i` out of the list.
    pub fn remove_at(&mut self, i: usize) -> (pair: (K, V))
        requires
            old(self).wf(),
            i < old(self)@.len(),
        ensures
            final(self)@ == old(self)@.remove(i as int),
            final(self).wf(),
            (pair.0, pair.1@) == old(self)@[i as int],
    {
        proof {
            lemma_index_of_key(self@, self@[i as int].0, i as int);
            lemma_without(self@, self@[i as int].0, self@[i as int].0);
        }
        let pair = self.items.remove(i);
        assert(self@ =~= old(self)@.remove(i as int));
        pair
    }

    /// Takes the value stored under `k` out of the list.
    pub fn remove(&mut self, k: &K) -> (r: Option<V>)
        requires
            old(self).wf(),
        ensures
            final(self)@ == without(old(self)@, *k),
            final(self).wf(),
            match r {
                Some(v) => lookup(old(self)@, *k) == Some(v@),
                None => lookup(old(self)@, *k) is None,
            },
    {
        proof {
            lemma_without(self@, *k, *k);
        }
        match self.position(k) {
            Some(i) => {
                proof {
                    lemma_index_of_key(self@, *k, i as int);
                }
                let pair = self.remove_at(i);
                Some(pair.1)
            },
            None => None,
        }
    }

    /// Empties the list and hands out what it held, in order.
    pub fn take_all(&mut self) -> (items: Vec<(K, V)>)
        ensures
            final(self)@ == Seq::<(K, V::V)>::empty(),
            final(self).wf(),
            pairs(items@) == old(self)@,
    {
        let mut items: Vec<(K, V)> = Vec::new();
        std::mem::swap(&mut self.items, &mut items);
        assert(self@ =~= Seq::<(K, V::V)>::empty());
        items
    }
}

} // verus!
