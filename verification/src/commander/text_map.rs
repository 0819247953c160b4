//! A map keyed by strings, holding each key once: what lazyjj keeps in a
//! `HashMap<String, _>`, with its contents as a `Map` of character sequences.

use vstd::prelude::*;

verus! {

/// The map that a sequence of key-value pairs describes when it is read in
/// order, each pair setting its key (a later pair for a key replaces an earlier one).
pub open spec fn pairs_map<V>(p: Seq<(Seq<char>, V)>) -> Map<Seq<char>, V>
    decreases p.len(),
{
    if p.len() == 0 {
        Map::empty()
    } else {
        pairs_map(p.drop_last()).insert(p.last().0, p.last().1)
    }
}

/// Whether no key occurs twice among the pairs.
pub open spec fn keys_unique<V>(p: Seq<(Seq<char>, V)>) -> bool {
    forall|i: int, j: int| 0 <= i < p.len() && 0 <= j < p.len() && i != j ==> p[i].0 != p[j].0
}

/// A key is in the map exactly when some pair has it.
proof fn lemma_pairs_map_contains<V>(p: Seq<(Seq<char>, V)>, k: Seq<char>)
    ensures
        pairs_map(p).contains_key(k) <==> exists|i: int| 0 <= i < p.len() && p[i].0 == k,
    decreases p.len(),
{
    if p.len() > 0 {
        lemma_pairs_map_contains(p.drop_last(), k);
        if pairs_map(p.drop_last()).contains_key(k) {
            let i = choose|i: int| 0 <= i < p.drop_last().len() && p.drop_last()[i].0 == k;
            assert(p[i].0 == k);
        }
        if exists|i: int| 0 <= i < p.len() && p[i].0 == k {
            let i = choose|i: int| 0 <= i < p.len() && p[i].0 == k;
            if i < p.len() - 1 {
                assert(p.drop_last()[i].0 == k);
            }
        }
    }
}

/// With keys held once, the value for the key of pair `j` is that pair's value.
proof fn lemma_pairs_map_value<V>(p: Seq<(Seq<char>, V)>, j: int)
    requires
        keys_unique(p),
        0 <= j < p.len(),
    ensures
        pairs_map(p).contains_key(p[j].0),
        pairs_map(p)[p[j].0] == p[j].1,
    decreases p.len(),
{
    if j < p.len() - 1 {
        assert(keys_unique(p.drop_last()));
        lemma_pairs_map_value(p.drop_last(), j);
        assert(p.drop_last()[j] == p[j]);
    }
}

/// With keys held once, replacing the value of pair `j` replaces it in the map.
proof fn lemma_pairs_map_update<V>(p: Seq<(Seq<char>, V)>, j: int, v: V)
    requires
        keys_unique(p),
        0 <= j < p.len(),
    ensures
        pairs_map(p.update(j, (p[j].0, v))) == pairs_map(p).insert(p[j].0, v),
    decreases p.len(),
{
    let q = p.update(j, (p[j].0, v));
    if j == p.len() - 1 {
        assert(q.drop_last() == p.drop_last());
        assert(pairs_map(q) =~= pairs_map(p).insert(p[j].0, v));
    } else {
        assert(keys_unique(p.drop_last()));
        lemma_pairs_map_update(p.drop_last(), j, v);
        assert(q.drop_last() == p.drop_last().update(j, (p[j].0, v)));
        assert(q.last() == p.last());
        assert(p.last().0 != p[j].0);
        assert(pairs_map(q) =~= pairs_map(p).insert(p[j].0, v));
    }
}

/// The string keys and values of a vector of pairs, keys taken by their characters.
pub open spec fn pairs_view<V>(v: Seq<(String, V)>) -> Seq<(Seq<char>, V)> {
    v.map_values(|e: (String, V)| (e.0@, e.1))
}

/// A map from strings to values of type `V`.
pub struct TextMap<V> {
    entries: Vec<(String, V)>,
}

impl<V> TextMap<V> {
    #[verifier::type_invariant]
    spec fn inv(self) -> bool {
        keys_unique(pairs_view(self.entries@))
    }
}

impl<V> View for TextMap<V> {
    type V = Map<Seq<char>, V>;

    closed spec fn view(&self) -> Map<Seq<char>, V> {
        pairs_map(pairs_view(self.entries@))
    }
}

impl<V> TextMap<V> {
    /// An empty map.
    pub fn new() -> (m: Self)
        ensures
            m@ == Map::<Seq<char>, V>::empty(),
    {
        let m = TextMap { entries: Vec::new() };
        assert(pairs_view(m.entries@) =~= Seq::<(Seq<char>, V)>::empty());
        m
    }

    /// The index of the entry for `key`, if there is one.
    fn position(&self, key: &String) -> (r: Option<usize>)
        ensures
            r matches Some(j) ==> j < self.entries@.len() && self.entries@[j as int].0@ == key@,
            r is None ==> forall|i: int|
                0 <= i < self.entries@.len() ==> self.entries@[i].0@ != key@,
    {
        let mut i: usize = 0;
        while i < self.entries.len()
            invariant
                i <= self.entries@.len(),
                forall|j: int| 0 <= j < i ==> self.entries@[j].0@ != key@,
            decreases self.entries@.len() - i,
        {
            if self.entries[i].0 == *key {
                return Some(i);
            }
            i += 1;
        }
        None
    }

    /// The value for `key`, if the map has one.
    pub fn get(&self, key: &str) -> (r: Option<&V>)
        ensures
            r matches Some(v) ==> self@.contains_key(key@) && self@[key@] == *v,
            r is None ==> !self@.contains_key(key@),
    {
        proof {
            use_type_invariant(self);
        }
        let key = String::from_str(key);
        let ghost p = pairs_view(self.entries@);
        proof {
            lemma_pairs_map_contains(p, key@);
        }
        match self.position(&key) {
            Some(j) => {
                proof {
                    lemma_pairs_map_value(p, j as int);
                }
                Some(&self.entries[j].1)
            },
            None => {
                assert forall|i: int| 0 <= i < p.len() implies p[i].0 != key@ by {
                    assert(p[i].0 == self.entries@[i].0@);
                }
                None
            },
        }
    }

    /// Sets the value for `key`, replacing any value it had.
    pub fn insert(&mut self, key: String, value: V)
        ensures
            final(self)@ == old(self)@.insert(key@, value),
    {
        proof {
            use_type_invariant(&*self);
        }
        let ghost p = pairs_view(self.entries@);
        let found = self.position(&key);
        let mut entries: Vec<(String, V)> = Vec::new();
        std::mem::swap(&mut entries, &mut self.entries);
        match found {
            Some(j) => {
                let ghost kj = entries@[j as int].0;
                entries.set(j, (key, value));
                proof {
                    lemma_pairs_map_update(p, j as int, value);
                    assert(pairs_view(entries@) =~= p.update(j as int, (p[j as int].0, value)));
                    assert forall|a: int, b: int|
                        0 <= a < pairs_view(entries@).len() && 0 <= b < pairs_view(
                            entries@,
                        ).len() && a != b implies pairs_view(entries@)[a].0 != pairs_view(
                        entries@,
                    )[b].0 by {
                        assert(pairs_view(entries@)[a].0 == p[a].0);
                        assert(pairs_view(entries@)[b].0 == p[b].0);
                    }
                }
            },
            None => {
                let ghost k = key@;
                entries.push((key, value));
                proof {
                    assert(pairs_view(entries@) =~= p.push((k, value)));
                    assert(pairs_view(entries@).drop_last() == p);
                    assert forall|a: int, b: int|
                        0 <= a < pairs_view(entries@).len() && 0 <= b < pairs_view(
                            entries@,
                        ).len() && a != b implies pairs_view(entries@)[a].0 != pairs_view(
                        entries@,
                    )[b].0 by {
                        if a < p.len() && b < p.len() {
                            assert(pairs_view(entries@)[a].0 == p[a].0);
                            assert(pairs_view(entries@)[b].0 == p[b].0);
                        } else if a < p.len() {
                            assert(pairs_view(entries@)[a].0 == p[a].0);
                            assert(p[a].0 == old(self).entries@[a].0@);
                        } else {
                            assert(pairs_view(entries@)[b].0 == p[b].0);
                            assert(p[b].0 == old(self).entries@[b].0@);
                        }
                    }
                }
            },
        }
        self.entries = entries;
    }
}

impl<V: Copy> TextMap<V> {
    /// A copy of the map.
    pub fn copied(&self) -> (r: Self)
        ensures
            r@ == self@,
    {
        proof {
            use_type_invariant(self);
        }
        let mut entries: Vec<(String, V)> = Vec::new();
        let mut i: usize = 0;
        while i < self.entries.len()
            invariant
                i <= self.entries@.len(),
                entries@.len() == i,
                pairs_view(entries@) == pairs_view(self.entries@).take(i as int),
            decreases self.entries@.len() - i,
        {
            let key = self.entries[i].0.clone();
            let value = self.entries[i].1;
            assert(key@ == self.entries@[i as int].0@);
            assert(value == self.entries@[i as int].1);
            let ghost before = entries@;
            entries.push((key, value));
            assert(entries@ == before.push((key, value)));
            assert(pairs_view(entries@)[i as int] == pairs_view(self.entries@)[i as int]);
            assert(pairs_view(entries@) =~= pairs_view(self.entries@).take(i + 1));
            i += 1;
        }
        assert(pairs_view(self.entries@).take(i as int) == pairs_view(self.entries@));
        TextMap { entries }
    }
}

} // verus!
