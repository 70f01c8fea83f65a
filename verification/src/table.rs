//! A lookup table over [`dashmap::DashMap`], keyed by a list of texts.

use dashmap::DashMap;
use vstd::prelude::*;

use crate::text;

verus! {

/// `dashmap::DashMap`, a hash map.
#[verifier::external_type_specification]
#[verifier::external_body]
#[verifier::reject_recursive_types(K)]
#[verifier::reject_recursive_types(V)]
#[verifier::reject_recursive_types(S)]
pub struct ExDashMap<K, V, S>(DashMap<K, V, S>);

/// A key: one or more texts.
pub type Key = Vec<String>;

/// The texts of a key.
pub open spec fn key_view(k: Key) -> Seq<Seq<char>> {
    text::texts(k@)
}

/// A hash map from keys to values. Its view is the map it holds.
///
/// The methods that call into `DashMap` are not proved. Changes go through
/// `&mut self`, so nothing else writes while one of them runs.
#[verifier::reject_recursive_types(V)]
pub struct Table<V> {
    inner: DashMap<Key, V>,
    model: Ghost<Map<Seq<Seq<char>>, V>>,
}

impl<V> View for Table<V> {
    type V = Map<Seq<Seq<char>>, V>;

    closed spec fn view(&self) -> Map<Seq<Seq<char>>, V> {
        self.model@
    }
}

impl<V> Table<V> {
    /// `DashMap::new`: an empty map.
    #[verifier::external_body]
    pub(crate) fn new() -> (r: Self)
        ensures
            r@.dom() == Set::<Seq<Seq<char>>>::empty(),
    {
        Table { inner: DashMap::new(), model: Ghost(Map::empty()) }
    }

    /// `DashMap::insert`: binds `key` to `value` and returns the value it was
    /// bound to before, if any.
    #[verifier::external_body]
    pub(crate) fn insert(&mut self, key: Key, value: V) -> (r: Option<V>)
        ensures
            final(self)@ == old(self)@.insert(key_view(key), value),
            r is Some <==> old(self)@.contains_key(key_view(key)),
            r matches Some(v) ==> v == old(self)@[key_view(key)],
    {
        self.inner.insert(key, value)
    }

    /// `DashMap::remove`: unbinds `key` and returns the value it was bound to,
    /// if any.
    #[verifier::external_body]
    pub(crate) fn remove(&mut self, key: &Key) -> (r: Option<V>)
        ensures
            final(self)@ == old(self)@.remove(key_view(*key)),
            r is Some <==> old(self)@.contains_key(key_view(*key)),
            r matches Some(v) ==> v == old(self)@[key_view(*key)],
    {
        self.inner.remove(key).map(|e| e.1)
    }

    /// `DashMap::contains_key`: whether `key` is bound.
    #[verifier::external_body]
    pub(crate) fn contains_key(&self, key: &Key) -> (r: bool)
        ensures
            r == self@.contains_key(key_view(*key)),
    {
        self.inner.contains_key(key)
    }

    /// `DashMap::len`: the number of bound keys.
    #[verifier::external_body]
    pub(crate) fn len(&self) -> (r: usize)
        ensures
            r == self@.len(),
    {
        self.inner.len()
    }

    /// `DashMap::iter`: every bound key once, in an order that is left open.
    #[verifier::external_body]
    pub(crate) fn keys(&self) -> (r: Vec<Key>)
        ensures
            r@.len() == self@.len(),
            forall|i: int| #![trigger r@[i]] 0 <= i < r@.len() ==> self@.contains_key(key_view(r@[i])),
            forall|i: int, j: int| #![trigger r@[i], r@[j]] 0 <= i < j < r@.len() ==> key_view(r@[i]) != key_view(r@[j]),
            forall|k: Seq<Seq<char>>| #![trigger self@.contains_key(k)] self@.contains_key(k) ==> exists|i: int| 0 <= i < r@.len() && key_view(#[trigger] r@[i]) == k,
    {
        self.inner.iter().map(|e| e.key().clone()).collect()
    }
}

impl<V: Copy> Table<V> {
    /// `DashMap::get`: the value that `key` is bound to.
    #[verifier::external_body]
    pub(crate) fn get(&self, key: &Key) -> (r: Option<V>)
        ensures
            r is Some <==> self@.contains_key(key_view(*key)),
            r matches Some(v) ==> v == self@[key_view(*key)],
    {
        self.inner.get(key).map(|e| *e.value())
    }

    /// Every binding once, in an order that is left open.
    pub(crate) fn entries(&self) -> (r: Vec<(Key, V)>)
        ensures
            r@.len() == self@.len(),
            forall|i: int| #![trigger r@[i]]
                0 <= i < r@.len() ==> self@.contains_key(key_view(r@[i].0)) && self@[key_view(
                    r@[i].0,
                )] == r@[i].1,
            forall|i: int, j: int| #![trigger r@[i], r@[j]]
                0 <= i < j < r@.len() ==> key_view(r@[i].0) != key_view(r@[j].0),
            forall|k: Seq<Seq<char>>| #![trigger self@.contains_key(k)]
                self@.contains_key(k) ==> exists|i: int|
                    0 <= i < r@.len() && key_view((#[trigger] r@[i]).0) == k,
    {
        let keys = self.keys();
        let mut out: Vec<(Key, V)> = Vec::new();
        let mut i: usize = 0;
        while i < keys.len()
            invariant
                i <= keys@.len(),
                out@.len() == i,
                forall|j: int| #![trigger keys@[j]]
                    0 <= j < keys@.len() ==> self@.contains_key(key_view(keys@[j])),
                forall|j: int| #![trigger out@[j]]
                    0 <= j < i ==> key_view(out@[j].0) == key_view(keys@[j]) && self@[key_view(
                        keys@[j],
                    )] == out@[j].1,
            decreases keys.len() - i,
        {
            match self.get(&keys[i]) {
                Some(v) => {
                    out.push((copy_key(&keys[i]), v));
                },
                None => {},
            }
            i = i + 1;
        }
        proof {
            assert forall|k: Seq<Seq<char>>| #![trigger self@.contains_key(k)]
                self@.contains_key(k) implies exists|j: int|
                0 <= j < out@.len() && key_view((#[trigger] out@[j]).0) == k by {
                let j = choose|j: int| 0 <= j < keys@.len() && key_view(#[trigger] keys@[j]) == k;
                assert(key_view(out@[j].0) == k);
            }
            assert forall|a: int, b: int| #![trigger out@[a], out@[b]]
                0 <= a < b < out@.len() implies key_view(out@[a].0) != key_view(out@[b].0) by {
                assert(key_view(keys@[a]) != key_view(keys@[b]));
            }
        }
        out
    }
}

impl<V: View> Table<V> {
    /// The models of the values.
    pub open spec fn models(&self) -> Map<Seq<Seq<char>>, V::V> {
        self@.map_values(|v: V| v@)
    }

    /// An empty table.
    pub(crate) fn empty() -> (r: Self)
        ensures
            r.models() == Map::<Seq<Seq<char>>, V::V>::empty(),
    {
        let r = Table::new();
        assert(r.models() =~= Map::<Seq<Seq<char>>, V::V>::empty());
        r
    }

    /// Binds `key` to `value`.
    pub(crate) fn put(&mut self, key: Key, value: V)
        ensures
            final(self).models() == old(self).models().insert(key_view(key), value@),
    {
        let ghost k = key_view(key);
        self.insert(key, value);
        assert(self.models() =~= old(self).models().insert(k, value@));
    }

    /// Unbinds `key` and returns its value, if it had one.
    pub(crate) fn take(&mut self, key: &Key) -> (r: Option<V>)
        ensures
            final(self).models() == old(self).models().remove(key_view(*key)),
            r is Some <==> old(self).models().contains_key(key_view(*key)),
            r matches Some(v) ==> v@ == old(self).models()[key_view(*key)] && old(self).models()
                == final(self).models().insert(key_view(*key), v@),
            r is None ==> final(self).models() == old(self).models(),
    {
        let r = self.remove(key);
        assert(self.models() =~= old(self).models().remove(key_view(*key)));
        proof {
            if r is Some {
                assert(old(self).models() =~= self.models().insert(key_view(*key), (r->0)@));
            } else {
                assert(self.models() =~= old(self).models());
            }
        }
        r
    }

    /// `true` when `key` is bound.
    pub(crate) fn has(&self, key: &Key) -> (r: bool)
        ensures
            r == self.models().contains_key(key_view(*key)),
    {
        self.contains_key(key)
    }
}

/// A copy of a key.
pub(crate) fn copy_key(k: &Key) -> (r: Key)
    ensures
        key_view(r) == key_view(*k),
{
    let mut out: Vec<String> = Vec::new();
    let mut i: usize = 0;
    while i < k.len()
        invariant
            i <= k@.len(),
            out@.len() == i,
            forall|j: int| 0 <= j < i ==> (#[trigger] out@[j])@ == k@[j]@,
        decreases k.len() - i,
    {
        out.push(k[i].clone());
        i = i + 1;
    }
    assert(key_view(out) =~= key_view(*k));
    out
}

/// A key of one text.
pub(crate) fn key1(a: &str) -> (r: Key)
    ensures
        key_view(r) == seq![a@],
{
    let k: Vec<String> = vec![a.to_owned()];
    assert(key_view(k) =~= seq![a@]);
    k
}

/// A key of three texts.
pub(crate) fn key3(a: &str, b: &str, c: &str) -> (r: Key)
    ensures
        key_view(r) == seq![a@, b@, c@],
{
    let k: Vec<String> = vec![a.to_owned(), b.to_owned(), c.to_owned()];
    assert(key_view(k) =~= seq![a@, b@, c@]);
    k
}

} // verus!
