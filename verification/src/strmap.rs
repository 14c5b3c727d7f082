//! A map keyed by text, which keeps its keys in the order they were first
//! inserted.  Node parameters, shared state and successor tables use it.

use vstd::prelude::*;
use crate::json::{JsonModel, JsonValue};

verus! {

/// The map that a sequence of distinct-keyed entries stands for.
pub open spec fn map_of<V>(s: Seq<(String, V)>) -> Map<Seq<char>, V>
    decreases s.len(),
{
    if s.len() == 0 {
        Map::empty()
    } else {
        map_of(s.drop_last()).insert(s.last().0@, s.last().1)
    }
}

/// The keys of a sequence of entries, in order.
pub open spec fn keys_of<V>(s: Seq<(String, V)>) -> Seq<Seq<char>> {
    s.map_values(|e: (String, V)| e.0@)
}

/// No key occurs twice.
pub open spec fn distinct_keys<V>(s: Seq<(String, V)>) -> bool {
    forall|i: int, j: int| 0 <= i < j < s.len() ==> s[i].0@ != s[j].0@
}

pub proof fn lemma_map_of<V>(s: Seq<(String, V)>)
    requires
        distinct_keys(s),
    ensures
        map_of(s).dom().finite(),
        map_of(s).len() == s.len(),
        forall|k: Seq<char>|
            #![trigger map_of(s).contains_key(k)]
            map_of(s).contains_key(k) <==> exists|i: int| 0 <= i < s.len() && s[i].0@ == k,
        forall|i: int| 0 <= i < s.len() ==> #[trigger] map_of(s)[s[i].0@] == s[i].1,
    decreases s.len(),
{
    if s.len() > 0 {
        let p = s.drop_last();
        assert(distinct_keys(p));
        lemma_map_of(p);
        let k = s.last().0@;
        assert(!map_of(p).contains_key(k)) by {
            if map_of(p).contains_key(k) {
                let i = choose|i: int| 0 <= i < p.len() && p[i].0@ == k;
                assert(s[i].0@ == s[s.len() - 1].0@);
            }
        }
        assert forall|k2: Seq<char>|
            map_of(s).contains_key(k2) implies exists|i: int| 0 <= i < s.len() && s[i].0@ == k2 by {
            if k2 != k {
                let i = choose|i: int| 0 <= i < p.len() && p[i].0@ == k2;
                assert(s[i].0@ == k2);
            } else {
                assert(s[s.len() - 1].0@ == k2);
            }
        }
        assert forall|k2: Seq<char>|
            (exists|i: int| 0 <= i < s.len() && s[i].0@ == k2) implies map_of(s).contains_key(k2) by {
            let i = choose|i: int| 0 <= i < s.len() && s[i].0@ == k2;
            if i < s.len() - 1 {
                assert(p[i].0@ == k2);
            }
        }
        assert forall|i: int| 0 <= i < s.len() implies #[trigger] map_of(s)[s[i].0@] == s[i].1 by {
            if i < s.len() - 1 {
                assert(p[i] == s[i]);
                assert(s[i].0@ != k);
            }
        }
    }
}

/// A map from text keys to values.
pub struct StrMap<V> {
    entries: Vec<(String, V)>,
}

impl<V> StrMap<V> {
    #[verifier::type_invariant]
    spec fn keys_are_distinct(self) -> bool {
        distinct_keys(self.entries@)
    }

    /// The contents of the map.
    pub closed spec fn contents(&self) -> Map<Seq<char>, V> {
        map_of(self.entries@)
    }

    /// The keys, in the order in which they were first inserted.
    pub closed spec fn key_order(&self) -> Seq<Seq<char>> {
        keys_of(self.entries@)
    }

    /// An empty map.
    pub fn new() -> (m: Self)
        ensures
            m@ == Map::<Seq<char>, V>::empty(),
            m.key_order() == Seq::<Seq<char>>::empty(),
    {
        let m = StrMap { entries: Vec::new() };
        assert(m.key_order() =~= Seq::<Seq<char>>::empty());
        m
    }

    /// The number of keys.  The key order lists each key of the map once.
    pub fn len(&self) -> (n: usize)
        ensures
            n == self@.len(),
            n == self.key_order().len(),
            forall|i: int, j: int|
                0 <= i < j < self.key_order().len() ==> self.key_order()[i] != self.key_order()[j],
            forall|k: Seq<char>|
                #![trigger self@.contains_key(k)]
                self@.contains_key(k) <==> self.key_order().contains(k),
    {
        proof {
            use_type_invariant(self);
            lemma_map_of(self.entries@);
            assert forall|k: Seq<char>| #![trigger self@.contains_key(k)]
                self@.contains_key(k) <==> self.key_order().contains(k) by {
                if self@.contains_key(k) {
                    let i = choose|i: int| 0 <= i < self.entries@.len() && self.entries@[i].0@ == k;
                    assert(self.key_order()[i] == k);
                }
                if self.key_order().contains(k) {
                    let i = choose|i: int| 0 <= i < self.key_order().len() && self.key_order()[i] == k;
                    assert(self.entries@[i].0@ == k);
                }
            }
        }
        self.entries.len()
    }

    /// Whether the map has no key.
    pub fn is_empty(&self) -> (b: bool)
        ensures
            b == (self@.len() == 0),
            b == (self.key_order().len() == 0),
    {
        self.len() == 0
    }

    /// The position of `key` among the entries.
    fn find(&self, key: &str) -> (r: Option<usize>)
        ensures
            r matches Some(i) ==> i < self.entries@.len() && self.entries@[i as int].0@ == key@,
            r is None ==> forall|i: int|
                0 <= i < self.entries@.len() ==> self.entries@[i].0@ != key@,
    {
        let mut i: usize = 0;
        while i < self.entries.len()
            invariant
                i <= self.entries@.len(),
                forall|j: int| 0 <= j < i ==> self.entries@[j].0@ != key@,
            decreases self.entries@.len() - i,
        {
            if crate::json::text_eq(self.entries[i].0.as_str(), key) {
                return Some(i);
            }
            i = i + 1;
        }
        None
    }

    /// Whether `key` has a value.
    pub fn contains_key(&self, key: &str) -> (b: bool)
        ensures
            b == self@.contains_key(key@),
    {
        proof {
            use_type_invariant(self);
            lemma_map_of(self.entries@);
        }
        self.find(key).is_some()
    }

    /// The value of `key`.
    pub fn get(&self, key: &str) -> (r: Option<&V>)
        ensures
            r.is_some() == self@.contains_key(key@),
            r matches Some(v) ==> self@[key@] == *v,
    {
        proof {
            use_type_invariant(self);
            lemma_map_of(self.entries@);
        }
        match self.find(key) {
            Some(i) => Some(&self.entries[i].1),
            None => None,
        }
    }

    /// Sets `key` to `value`, and hands back the value it replaces.  A new
    /// key goes last in the key order; a present one keeps its place.
    pub fn insert(&mut self, key: String, value: V) -> (prev: Option<V>)
        ensures
            final(self)@ == old(self)@.insert(key@, value),
            prev.is_some() == old(self)@.contains_key(key@),
            prev matches Some(p) ==> p == old(self)@[key@],
            old(self)@.contains_key(key@) ==> final(self).key_order() == old(self).key_order(),
            !old(self)@.contains_key(key@) ==> final(self).key_order() == old(self).key_order().push(
                key@,
            ),
    {
        proof {
            use_type_invariant(&*self);
            lemma_map_of(self.entries@);
        }
        let ghost old_entries = self.entries@;
        let found = self.find(key.as_str());
        let mut entries: Vec<(String, V)> = Vec::new();
        std::mem::swap(&mut entries, &mut self.entries);
        let prev = match found {
            Some(i) => {
                let (_, p) = entries.remove(i);
                entries.insert(i, (key, value));
                proof {
                    assert(entries@ =~= old_entries.update(i as int, (key, value)));
                    assert(distinct_keys(entries@)) by {
                        assert forall|a: int, b: int| 0 <= a < b < entries@.len() implies entries@[a].0@
                            != entries@[b].0@ by {
                            if a != i && b != i {
                                assert(entries@[a] == old_entries[a]);
                                assert(entries@[b] == old_entries[b]);
                            }
                        }
                    }
                    lemma_map_of(entries@);
                    assert(map_of(entries@) =~= map_of(old_entries).insert(key@, value)) by {
                        assert forall|k: Seq<char>| map_of(entries@).contains_key(k)
                            <==> map_of(old_entries).insert(key@, value).contains_key(k) by {
                            if map_of(entries@).contains_key(k) {
                                let j = choose|j: int| 0 <= j < entries@.len() && entries@[j].0@ == k;
                                if j != i {
                                    assert(old_entries[j].0@ == k);
                                }
                            }
                            if map_of(old_entries).contains_key(k) && k != key@ {
                                let j = choose|j: int|
                                    0 <= j < old_entries.len() && old_entries[j].0@ == k;
                                assert(entries@[j].0@ == k);
                            }
                            if k == key@ {
                                assert(entries@[i as int].0@ == k);
                            }
                        }
                        assert forall|k: Seq<char>| #[trigger]
                            map_of(entries@).contains_key(k) implies map_of(entries@)[k] == map_of(
                            old_entries,
                        ).insert(key@, value)[k] by {
                            let j = choose|j: int| 0 <= j < entries@.len() && entries@[j].0@ == k;
                            assert(map_of(entries@)[entries@[j].0@] == entries@[j].1);
                            if j != i {
                                assert(map_of(old_entries)[old_entries[j].0@] == old_entries[j].1);
                            }
                        }
                    }
                    assert(keys_of(entries@) =~= keys_of(old_entries));
                }
                Some(p)
            },
            None => {
                entries.push((key, value));
                proof {
                    assert(entries@.drop_last() =~= old_entries);
                    assert(keys_of(entries@) =~= keys_of(old_entries).push(key@));
                }
                None
            },
        };
        self.entries = entries;
        prev
    }

    /// Removes `key`, and hands back its value.  The other keys keep their
    /// order.
    pub fn remove(&mut self, key: &str) -> (prev: Option<V>)
        ensures
            final(self)@ == old(self)@.remove(key@),
            prev.is_some() == old(self)@.contains_key(key@),
            prev matches Some(p) ==> p == old(self)@[key@],
            !old(self)@.contains_key(key@) ==> final(self).key_order() == old(self).key_order(),
            old(self)@.contains_key(key@) ==> exists|i: int|
                0 <= i < old(self).key_order().len() && old(self).key_order()[i] == key@
                    && final(self).key_order() == #[trigger] old(self).key_order().remove(i),
    {
        proof {
            use_type_invariant(&*self);
            lemma_map_of(self.entries@);
        }
        let ghost old_entries = self.entries@;
        match self.find(key) {
            Some(i) => {
                let mut entries: Vec<(String, V)> = Vec::new();
                std::mem::swap(&mut entries, &mut self.entries);
                let (_, p) = entries.remove(i);
                proof {
                    assert(entries@ =~= old_entries.remove(i as int));
                    assert(distinct_keys(entries@)) by {
                        assert forall|a: int, b: int| 0 <= a < b < entries@.len() implies entries@[a].0@
                            != entries@[b].0@ by {
                            let a2 = if a < i { a } else { a + 1 };
                            let b2 = if b < i { b } else { b + 1 };
                            assert(entries@[a] == old_entries[a2]);
                            assert(entries@[b] == old_entries[b2]);
                        }
                    }
                    lemma_map_of(entries@);
                    assert(map_of(entries@) =~= map_of(old_entries).remove(key@)) by {
                        assert forall|k: Seq<char>| map_of(entries@).contains_key(k)
                            <==> map_of(old_entries).remove(key@).contains_key(k) by {
                            if map_of(entries@).contains_key(k) {
                                let j = choose|j: int| 0 <= j < entries@.len() && entries@[j].0@ == k;
                                let j2 = if j < i { j } else { j + 1 };
                                assert(old_entries[j2].0@ == k);
                            }
                            if map_of(old_entries).contains_key(k) && k != key@ {
                                let j = choose|j: int|
                                    0 <= j < old_entries.len() && old_entries[j].0@ == k;
                                let j2 = if j < i { j } else { j - 1 };
                                assert(entries@[j2].0@ == k);
                            }
                        }
                        assert forall|k: Seq<char>| #[trigger]
                            map_of(entries@).contains_key(k) implies map_of(entries@)[k] == map_of(
                            old_entries,
                        ).remove(key@)[k] by {
                            let j = choose|j: int| 0 <= j < entries@.len() && entries@[j].0@ == k;
                            let j2 = if j < i { j } else { j + 1 };
                            assert(map_of(entries@)[entries@[j].0@] == entries@[j].1);
                            assert(map_of(old_entries)[old_entries[j2].0@] == old_entries[j2].1);
                        }
                    }
                }
                proof {
                    assert(keys_of(entries@) =~= keys_of(old_entries).remove(i as int));
                    assert(keys_of(old_entries)[i as int] == key@);
                }
                self.entries = entries;
                assert(self.key_order() == old(self).key_order().remove(i as int));
                Some(p)
            },
            None => {
                proof {
                    assert(map_of(old_entries) =~= map_of(old_entries).remove(key@));
                }
                None
            },
        }
    }

    /// The keys, in order.
    pub fn keys(&self) -> (r: Vec<String>)
        ensures
            r@.len() == self.key_order().len(),
            r@.len() == self@.len(),
            forall|i: int| 0 <= i < r@.len() ==> (#[trigger] r@[i])@ == self.key_order()[i],
            forall|i: int| 0 <= i < r@.len() ==> self@.contains_key(#[trigger] r@[i]@),
            forall|k: Seq<char>|
                #![trigger self@.contains_key(k)]
                self@.contains_key(k) ==> exists|i: int| 0 <= i < r@.len() && r@[i]@ == k,
            forall|i: int, j: int| 0 <= i < j < r@.len() ==> r@[i]@ != r@[j]@,
    {
        proof {
            use_type_invariant(self);
            lemma_map_of(self.entries@);
        }
        let mut r: Vec<String> = Vec::new();
        let mut i: usize = 0;
        while i < self.entries.len()
            invariant
                i <= self.entries@.len(),
                r@.len() == i,
                forall|j: int| 0 <= j < i ==> (#[trigger] r@[j])@ == self.entries@[j].0@,
            decreases self.entries@.len() - i,
        {
            r.push(self.entries[i].0.clone());
            i = i + 1;
        }
        proof {
            assert forall|k: Seq<char>| #[trigger]
                self@.contains_key(k) implies exists|i: int| 0 <= i < r@.len() && r@[i]@ == k by {
                let j = choose|j: int| 0 <= j < self.entries@.len() && self.entries@[j].0@ == k;
                assert(r@[j]@ == k);
            }
        }
        r
    }

    /// The entries, in key order.
    pub fn into_entries(self) -> (r: Vec<(String, V)>)
        ensures
            r@.len() == self.key_order().len(),
            forall|i: int| 0 <= i < r@.len() ==> (#[trigger] r@[i]).0@ == self.key_order()[i],
            forall|i: int| 0 <= i < r@.len() ==> self@[(#[trigger] r@[i]).0@] == r@[i].1,
    {
        proof {
            use_type_invariant(&self);
            lemma_map_of(self.entries@);
        }
        self.entries
    }

    /// The key and value at position `i` of the key order.
    pub fn entry_at(&self, i: usize) -> (r: (&String, &V))
        requires
            i < self.key_order().len(),
        ensures
            r.0@ == self.key_order()[i as int],
            self@.contains_key(r.0@),
            self@[r.0@] == *r.1,
    {
        proof {
            use_type_invariant(self);
            lemma_map_of(self.entries@);
        }
        (&self.entries[i].0, &self.entries[i].1)
    }
}

/// The models of a map's JSON values.
pub open spec fn value_models(m: Map<Seq<char>, JsonValue>) -> Map<Seq<char>, JsonModel> {
    m.map_values(|v: JsonValue| v@)
}

impl StrMap<JsonValue> {
    /// A copy of the map: the same keys in the same order, and values with
    /// the same models.
    pub fn deep_clone(&self) -> (r: Self)
        ensures
            r.key_order() == self.key_order(),
            r@.dom() == self@.dom(),
            value_models(r@) == value_models(self@),
    {
        proof {
            use_type_invariant(self);
        }
        let mut entries: Vec<(String, JsonValue)> = Vec::new();
        let mut i: usize = 0;
        while i < self.entries.len()
            invariant
                distinct_keys(self.entries@),
                i <= self.entries@.len(),
                entries@.len() == i,
                forall|j: int|
                    0 <= j < i ==> (#[trigger] entries@[j]).0@ == self.entries@[j].0@
                        && entries@[j].1@ == self.entries@[j].1@,
            decreases self.entries@.len() - i,
        {
            let k = self.entries[i].0.clone();
            let v = self.entries[i].1.deep_clone();
            entries.push((k, v));
            i = i + 1;
        }
        let r = StrMap { entries };
        proof {
            assert(distinct_keys(entries@));
            lemma_map_of(entries@);
            lemma_map_of(self.entries@);
            assert(keys_of(entries@) =~= keys_of(self.entries@));
            assert forall|k: Seq<char>| r@.contains_key(k) <==> self@.contains_key(k) by {
                if r@.contains_key(k) {
                    let j = choose|j: int| 0 <= j < entries@.len() && entries@[j].0@ == k;
                    assert(self.entries@[j].0@ == k);
                }
                if self@.contains_key(k) {
                    let j = choose|j: int| 0 <= j < self.entries@.len() && self.entries@[j].0@ == k;
                    assert(entries@[j].0@ == k);
                }
            }
            assert(r@.dom() =~= self@.dom());
            assert forall|k: Seq<char>| #[trigger] r@.contains_key(k) implies r@[k]@ == self@[k]@ by {
                let j = choose|j: int| 0 <= j < entries@.len() && entries@[j].0@ == k;
                assert(r@[entries@[j].0@] == entries@[j].1);
                assert(self@[self.entries@[j].0@] == self.entries@[j].1);
            }
            assert(value_models(r@) =~= value_models(self@));
        }
        r
    }
}

impl Clone for StrMap<JsonValue> {
    fn clone(&self) -> (r: Self)
        ensures
            r.key_order() == self.key_order(),
            r@.dom() == self@.dom(),
            value_models(r@) == value_models(self@),
    {
        self.deep_clone()
    }
}

impl<V> View for StrMap<V> {
    type V = Map<Seq<char>, V>;

    open spec fn view(&self) -> Map<Seq<char>, V> {
        self.contents()
    }
}

} // verus!
