//! A small map from pairs of texts to values, kept as a list without
//! duplicate keys.

use vstd::prelude::*;

verus! {

/// A key: two texts.
pub type PairKey = (Seq<char>, Seq<char>);

/// A map from pairs of texts to values. Its view is the map it holds.
pub struct PairMap<V> {
    entries: Vec<((String, String), V)>,
}

/// The key of an entry.
pub open spec fn entry_key<V>(e: ((String, String), V)) -> PairKey {
    (e.0.0@, e.0.1@)
}

/// No key occurs twice.
pub open spec fn distinct_keys<V>(s: Seq<((String, String), V)>) -> bool {
    forall|i: int, j: int|
        #![trigger s[i], s[j]]
        0 <= i < j < s.len() ==> entry_key(s[i]) != entry_key(s[j])
}

/// The map that a list of entries stands for.
pub open spec fn entries_map<V>(s: Seq<((String, String), V)>) -> Map<PairKey, V>
    decreases s.len(),
{
    if s.len() == 0 {
        Map::empty()
    } else {
        entries_map(s.drop_last()).insert(entry_key(s.last()), s.last().1)
    }
}

proof fn lemma_entries_map<V>(s: Seq<((String, String), V)>)
    ensures
        entries_map(s).dom().finite(),
        forall|k: PairKey|
            entries_map(s).contains_key(k) <==> exists|i: int|
                0 <= i < s.len() && entry_key(#[trigger] s[i]) == k,
        distinct_keys(s) ==> forall|i: int|
            0 <= i < s.len() ==> entries_map(s)[entry_key(#[trigger] s[i])] == s[i].1,
        distinct_keys(s) ==> entries_map(s).dom().len() == s.len(),
    decreases s.len(),
{
    if s.len() > 0 {
        let p = s.drop_last();
        lemma_entries_map(p);
        assert forall|k: PairKey|
            entries_map(s).contains_key(k) <==> exists|i: int|
                0 <= i < s.len() && entry_key(#[trigger] s[i]) == k by {
            if entries_map(s).contains_key(k) {
                if k == entry_key(s.last()) {
                    assert(entry_key(s[s.len() - 1]) == k);
                } else {
                    let i = choose|i: int| 0 <= i < p.len() && entry_key(#[trigger] p[i]) == k;
                    assert(entry_key(s[i]) == k);
                }
            }
            if exists|i: int| 0 <= i < s.len() && entry_key(#[trigger] s[i]) == k {
                let i = choose|i: int| 0 <= i < s.len() && entry_key(#[trigger] s[i]) == k;
                if i < p.len() {
                    assert(p[i] == s[i]);
                }
            }
        }
        if distinct_keys(s) {
            assert(distinct_keys(p)) by {
                assert forall|i: int, j: int|
                    #![trigger p[i], p[j]]
                    0 <= i < j < p.len() implies entry_key(p[i]) != entry_key(p[j]) by {
                    assert(p[i] == s[i] && p[j] == s[j]);
                }
            }
            assert(!entries_map(p).contains_key(entry_key(s.last()))) by {
                if entries_map(p).contains_key(entry_key(s.last())) {
                    let i = choose|i: int|
                        0 <= i < p.len() && entry_key(#[trigger] p[i]) == entry_key(s.last());
                    assert(p[i] == s[i]);
                    assert(s[s.len() - 1] == s.last());
                }
            }
            assert forall|i: int| 0 <= i < s.len() implies entries_map(s)[entry_key(
                #[trigger] s[i],
            )] == s[i].1 by {
                if i < p.len() {
                    assert(p[i] == s[i]);
                    assert(entry_key(s[i]) != entry_key(s[s.len() - 1]));
                }
            }
        }
    }
}

/// Two lists of distinct keys that hold the same entries stand for the same
/// map.
proof fn lemma_same_map<V>(s: Seq<((String, String), V)>, m: Map<PairKey, V>)
    requires
        distinct_keys(s),
        forall|k: PairKey|
            m.contains_key(k) <==> exists|i: int|
                0 <= i < s.len() && entry_key(#[trigger] s[i]) == k,
        forall|i: int| 0 <= i < s.len() ==> m[entry_key(#[trigger] s[i])] == s[i].1,
    ensures
        entries_map(s) == m,
{
    lemma_entries_map(s);
    assert forall|k: PairKey| #[trigger] m.contains_key(k) implies m[k] == entries_map(s)[k] by {
        let i = choose|i: int| 0 <= i < s.len() && entry_key(#[trigger] s[i]) == k;
        assert(entry_key(s[i]) == k);
    }
    assert(entries_map(s).dom() =~= m.dom());
    assert(entries_map(s) =~= m);
}

impl<V> View for PairMap<V> {
    type V = Map<PairKey, V>;

    closed spec fn view(&self) -> Map<PairKey, V> {
        entries_map(self.entries@)
    }
}

impl<V> PairMap<V> {
    /// No key occurs twice.
    #[verifier::type_invariant]
    spec fn inv(&self) -> bool {
        distinct_keys(self.entries@)
    }

    /// The values, in the order in which their keys were first bound.
    pub closed spec fn values(&self) -> Seq<V> {
        Seq::new(self.entries@.len(), |i: int| self.entries@[i].1)
    }

    /// The keys, in the same order.
    pub closed spec fn keys(&self) -> Seq<PairKey> {
        Seq::new(self.entries@.len(), |i: int| entry_key(self.entries@[i]))
    }

    /// The list of keys and the list of values are the map, entry by entry.
    pub open spec fn is_listed(&self) -> bool {
        &&& self.keys().len() == self.values().len()
        &&& self.keys().len() == self@.dom().len()
        &&& forall|i: int|
            0 <= i < self.keys().len() ==> self@.contains_key(#[trigger] self.keys()[i])
                && self@[self.keys()[i]] == self.values()[i]
        &&& forall|k: PairKey| #[trigger]
            self@.contains_key(k) ==> exists|i: int|
                0 <= i < self.keys().len() && #[trigger] self.keys()[i] == k
        &&& forall|i: int, j: int|
            0 <= i < j < self.keys().len() ==> #[trigger] self.keys()[i]
                != #[trigger] self.keys()[j]
    }

    /// An empty map.
    pub fn new() -> (r: Self)
        ensures
            r@ == Map::<PairKey, V>::empty(),
            r.values().len() == 0,
    {
        PairMap { entries: Vec::new() }
    }

    /// Number of bound keys.
    pub fn len(&self) -> (r: usize)
        ensures
            self@.dom().finite(),
            r == self@.dom().len(),
            r == self.values().len(),
            self.is_listed(),
    {
        proof {
            use_type_invariant(self);
            lemma_entries_map(self.entries@);
            assert forall|i: int| 0 <= i < self.keys().len() implies self@.contains_key(
                #[trigger] self.keys()[i],
            ) && self@[self.keys()[i]] == self.values()[i] by {
                assert(entry_key(self.entries@[i]) == self.keys()[i]);
            }
            assert forall|k: PairKey| #[trigger] self@.contains_key(k) implies exists|i: int|
                0 <= i < self.keys().len() && #[trigger] self.keys()[i] == k by {
                let i = choose|i: int|
                    0 <= i < self.entries@.len() && entry_key(#[trigger] self.entries@[i]) == k;
                assert(self.keys()[i] == k);
            }
            assert forall|i: int, j: int|
                0 <= i < j < self.keys().len() implies #[trigger] self.keys()[i]
                != #[trigger] self.keys()[j] by {
                assert(entry_key(self.entries@[i]) != entry_key(self.entries@[j]));
            }
        }
        self.entries.len()
    }

    fn position(&self, a: &str, b: &str) -> (r: Option<usize>)
        ensures
            match r {
                Some(i) => i < self.entries@.len() && entry_key(self.entries@[i as int]) == (
                    a@,
                    b@,
                ),
                None => forall|i: int|
                    0 <= i < self.entries@.len() ==> entry_key(#[trigger] self.entries@[i]) != (
                        a@,
                        b@,
                    ),
            },
    {
        let x = a.to_owned();
        let y = b.to_owned();
        let mut i: usize = 0;
        while i < self.entries.len()
            invariant
                i <= self.entries@.len(),
                x@ == a@,
                y@ == b@,
                forall|j: int|
                    0 <= j < i ==> entry_key(#[trigger] self.entries@[j]) != (a@, b@),
            decreases self.entries.len() - i,
        {
            if self.entries[i].0.0 == x && self.entries[i].0.1 == y {
                return Some(i);
            }
            i = i + 1;
        }
        None
    }

    /// The value of a key.
    pub fn get(&self, a: &str, b: &str) -> (r: Option<&V>)
        ensures
            r is Some <==> self@.contains_key((a@, b@)),
            r matches Some(v) ==> *v == self@[(a@, b@)],
    {
        proof {
            use_type_invariant(self);
            lemma_entries_map(self.entries@);
        }
        match self.position(a, b) {
            Some(i) => Some(&self.entries[i].1),
            None => None,
        }
    }

    /// Binds a key, in place of what it was bound to.
    pub fn insert(&mut self, a: String, b: String, value: V)
        ensures
            final(self)@ == old(self)@.insert((a@, b@), value),
            !old(self)@.contains_key((a@, b@)) ==> final(self).values() == old(
                self,
            ).values().push(value),
    {
        proof {
            use_type_invariant(&*self);
            lemma_entries_map(self.entries@);
        }
        let ghost before = self.entries@;
        let found = self.position(&a, &b);
        let mut entries: Vec<((String, String), V)> = Vec::new();
        core::mem::swap(&mut entries, &mut self.entries);
        match found {
            Some(i) => {
                entries[i] = ((a, b), value);
                proof {
                    let now = entries@;
                    let key = (a@, b@);
                    let m = entries_map(before).insert(key, value);
                    assert(now =~= before.update(i as int, ((a, b), value)));
                    assert forall|p: int, q: int|
                        #![trigger now[p], now[q]]
                        0 <= p < q < now.len() implies entry_key(now[p]) != entry_key(now[q]) by {
                        assert(entry_key(before[p]) != entry_key(before[q]));
                    }
                    assert forall|k: PairKey|
                        m.contains_key(k) <==> exists|j: int|
                            0 <= j < now.len() && entry_key(#[trigger] now[j]) == k by {
                        if m.contains_key(k) {
                            if k == key {
                                assert(entry_key(now[i as int]) == k);
                            } else {
                                let j = choose|j: int|
                                    0 <= j < before.len() && entry_key(#[trigger] before[j]) == k;
                                assert(entry_key(now[j]) == k);
                            }
                        }
                        if exists|j: int| 0 <= j < now.len() && entry_key(#[trigger] now[j]) == k {
                            let j = choose|j: int|
                                0 <= j < now.len() && entry_key(#[trigger] now[j]) == k;
                            assert(entry_key(before[j]) == k);
                        }
                    }
                    assert forall|j: int| 0 <= j < now.len() implies m[entry_key(
                        #[trigger] now[j],
                    )] == now[j].1 by {
                        if j != i {
                            assert(entry_key(before[j]) != entry_key(before[i as int]));
                        }
                    }
                    lemma_same_map(now, m);
                    assert(entry_key(before[i as int]) == key);
                }
                self.entries = entries;
            },
            None => {
                entries.push(((a, b), value));
                proof {
                    let now = entries@;
                    assert(now.drop_last() =~= before);
                    assert forall|p: int, q: int|
                        #![trigger now[p], now[q]]
                        0 <= p < q < now.len() implies entry_key(now[p]) != entry_key(now[q]) by {
                        if q < before.len() {
                            assert(entry_key(before[p]) != entry_key(before[q]));
                        } else {
                            assert(now[p] == before[p]);
                        }
                    }
                }
                self.entries = entries;
                assert(self.values() =~= old(self).values().push(value));
            },
        }
    }

    /// Unbinds a key and returns its value.
    pub fn remove(&mut self, a: &str, b: &str) -> (r: Option<V>)
        ensures
            final(self)@ == old(self)@.remove((a@, b@)),
            r is Some <==> old(self)@.contains_key((a@, b@)),
            r matches Some(v) ==> v == old(self)@[(a@, b@)],
    {
        proof {
            use_type_invariant(&*self);
            lemma_entries_map(self.entries@);
        }
        let ghost before = self.entries@;
        match self.position(a, b) {
            Some(i) => {
                let mut entries: Vec<((String, String), V)> = Vec::new();
                core::mem::swap(&mut entries, &mut self.entries);
                let e = entries.remove(i);
                proof {
                    let now = entries@;
                    let key = (a@, b@);
                    let m = entries_map(before).remove(key);
                    assert(now =~= before.remove(i as int));
                    assert forall|p: int, q: int|
                        #![trigger now[p], now[q]]
                        0 <= p < q < now.len() implies entry_key(now[p]) != entry_key(now[q]) by {
                        let p0 = if p < i {
                            p
                        } else {
                            p + 1
                        };
                        let q0 = if q < i {
                            q
                        } else {
                            q + 1
                        };
                        assert(entry_key(before[p0]) != entry_key(before[q0]));
                    }
                    assert forall|k: PairKey|
                        m.contains_key(k) <==> exists|j: int|
                            0 <= j < now.len() && entry_key(#[trigger] now[j]) == k by {
                        if m.contains_key(k) {
                            let j = choose|j: int|
                                0 <= j < before.len() && entry_key(#[trigger] before[j]) == k;
                            let j0 = if j < i {
                                j
                            } else {
                                j - 1
                            };
                            assert(entry_key(now[j0]) == k);
                        }
                        if exists|j: int| 0 <= j < now.len() && entry_key(#[trigger] now[j]) == k {
                            let j = choose|j: int|
                                0 <= j < now.len() && entry_key(#[trigger] now[j]) == k;
                            let j0 = if j < i {
                                j
                            } else {
                                j + 1
                            };
                            assert(entry_key(before[j0]) == k);
                            assert(entry_key(before[j0]) != entry_key(before[i as int]));
                        }
                    }
                    assert forall|j: int| 0 <= j < now.len() implies m[entry_key(
                        #[trigger] now[j],
                    )] == now[j].1 by {
                        let j0 = if j < i {
                            j
                        } else {
                            j + 1
                        };
                        assert(now[j] == before[j0]);
                        assert(entry_key(before[j0]) != entry_key(before[i as int]));
                    }
                    lemma_same_map(now, m);
                    assert(entry_key(before[i as int]) == key);
                }
                self.entries = entries;
                Some(e.1)
            },
            None => {
                proof {
                    assert(entries_map(before).remove((a@, b@)) =~= entries_map(before));
                }
                None
            },
        }
    }

    /// The value at position `i` in [`PairMap::values`].
    pub fn value_at(&self, i: usize) -> (r: &V)
        requires
            i < self.values().len(),
        ensures
            *r == self.values()[i as int],
    {
        &self.entries[i].1
    }
}

} // verus!
