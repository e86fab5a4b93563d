//! A map keyed by strings, kept as a list of entries with distinct keys.

use vstd::prelude::*;

use crate::text::str_eq;

verus! {

#[derive(Debug)]
pub struct StrMap<V> {
    entries: Vec<(String, V)>,
}

/// Whether the entries hold `k` as a key.
pub open spec fn has_key<V>(es: Seq<(String, V)>, k: Seq<char>) -> bool {
    exists|i: int| 0 <= i < es.len() && (#[trigger] es[i]).0@ == k
}

/// No key appears twice.
pub open spec fn distinct_keys<V>(es: Seq<(String, V)>) -> bool {
    forall|i: int, j: int|
        0 <= i < es.len() && 0 <= j < es.len() && i != j ==> (#[trigger] es[i]).0@ != (#[trigger] es[j]).0@
}

/// The value of the entry whose key is `k`.
pub open spec fn value_at<V>(es: Seq<(String, V)>, k: Seq<char>) -> V {
    es[choose|i: int| 0 <= i < es.len() && (#[trigger] es[i]).0@ == k].1
}

pub open spec fn entries_map<V>(es: Seq<(String, V)>) -> Map<Seq<char>, V> {
    Map::new(|k: Seq<char>| has_key(es, k), |k: Seq<char>| value_at(es, k))
}

proof fn lemma_value_at<V>(es: Seq<(String, V)>, i: int)
    requires
        distinct_keys(es),
        0 <= i < es.len(),
    ensures
        has_key(es, es[i].0@),
        value_at(es, es[i].0@) == es[i].1,
{
    let j = choose|j: int| 0 <= j < es.len() && (#[trigger] es[j]).0@ == es[i].0@;
    assert(j == i);
}

impl<V> View for StrMap<V> {
    type V = Map<Seq<char>, V>;

    closed spec fn view(&self) -> Map<Seq<char>, V> {
        entries_map(self.entries@)
    }
}

impl<V> StrMap<V> {
    #[verifier::type_invariant]
    closed spec fn well_formed(self) -> bool {
        distinct_keys(self.entries@)
    }

    pub fn new() -> (m: Self)
        ensures
            m@ == Map::<Seq<char>, V>::empty(),
    {
        let m = StrMap { entries: Vec::new() };
        assert(m@ =~= Map::<Seq<char>, V>::empty());
        m
    }

    /// The position of the entry with key `k`.
    fn find(&self, k: &str) -> (pos: Option<usize>)
        ensures
            match pos {
                Some(i) => i < self.entries@.len() && self.entries@[i as int].0@ == k@,
                None => !has_key(self.entries@, k@),
            },
    {
        let mut i: usize = 0;
        while i < self.entries.len()
            invariant
                i <= self.entries.len(),
                forall|j: int| 0 <= j < i ==> (#[trigger] self.entries@[j]).0@ != k@,
            decreases self.entries.len() - i,
        {
            if str_eq(self.entries[i].0.as_str(), k) {
                return Some(i);
            }
            i += 1;
        }
        None
    }

    pub fn get(&self, k: &str) -> (value: Option<&V>)
        ensures
            match value {
                Some(v) => self@.contains_key(k@) && *v == self@[k@],
                None => !self@.contains_key(k@),
            },
    {
        proof {
            use_type_invariant(self);
        }
        match self.find(k) {
            Some(i) => {
                proof {
                    lemma_value_at(self.entries@, i as int);
                }
                Some(&self.entries[i].1)
            },
            None => None,
        }
    }

    pub fn contains_key(&self, k: &str) -> (found: bool)
        ensures
            found == self@.contains_key(k@),
    {
        self.find(k).is_some()
    }

    pub fn insert(&mut self, k: String, v: V)
        ensures
            final(self)@ == old(self)@.insert(k@, v),
    {
        proof {
            use_type_invariant(&*self);
        }
        let ghost old_es = self.entries@;
        let ghost kv = k@;
        match self.find(k.as_str()) {
            Some(i) => {
                let mut entries = Vec::new();
                std::mem::swap(&mut entries, &mut self.entries);
                entries.set(i, (k, v));
                let ghost es = entries@;
                assert forall|a: int, b: int|
                    0 <= a < es.len() && 0 <= b < es.len() && a != b implies (#[trigger] es[a]).0@
                    != (#[trigger] es[b]).0@ by {
                    assert(old_es[a].0@ != old_es[b].0@ || a == b);
                }
                self.entries = entries;
                proof {
                    lemma_value_at(es, i as int);
                    assert forall|key: Seq<char>| #[trigger]
                        entries_map(es).contains_key(key) == old_es_map_insert(old_es, kv, v).contains_key(key)
                        && (entries_map(es).contains_key(key) ==> entries_map(es)[key] == old_es_map_insert(old_es, kv, v)[key]) by {
                        if key != kv {
                            if has_key(old_es, key) {
                                let j = choose|j: int| 0 <= j < old_es.len() && (#[trigger] old_es[j]).0@ == key;
                                assert(es[j] == old_es[j]);
                                lemma_value_at(es, j);
                                lemma_value_at(old_es, j);
                            }
                            if has_key(es, key) {
                                let j = choose|j: int| 0 <= j < es.len() && (#[trigger] es[j]).0@ == key;
                                assert(es[j] == old_es[j]);
                            }
                        }
                    }
                    assert(entries_map(es) =~= old_es_map_insert(old_es, kv, v));
                }
            },
            None => {
                let mut entries = Vec::new();
                std::mem::swap(&mut entries, &mut self.entries);
                entries.push((k, v));
                let ghost es = entries@;
                let ghost n = old_es.len() as int;
                assert forall|a: int, b: int|
                    0 <= a < es.len() && 0 <= b < es.len() && a != b implies (#[trigger] es[a]).0@
                    != (#[trigger] es[b]).0@ by {
                    if a < n && b < n {
                        assert(old_es[a].0@ != old_es[b].0@);
                    } else if a == n {
                        assert(es[b] == old_es[b]);
                    } else {
                        assert(es[a] == old_es[a]);
                    }
                }
                self.entries = entries;
                proof {
                    lemma_value_at(es, n);
                    assert forall|key: Seq<char>| #[trigger]
                        entries_map(es).contains_key(key) == old_es_map_insert(old_es, kv, v).contains_key(key)
                        && (entries_map(es).contains_key(key) ==> entries_map(es)[key] == old_es_map_insert(old_es, kv, v)[key]) by {
                        if key != kv {
                            if has_key(old_es, key) {
                                let j = choose|j: int| 0 <= j < old_es.len() && (#[trigger] old_es[j]).0@ == key;
                                assert(es[j] == old_es[j]);
                                lemma_value_at(es, j);
                                lemma_value_at(old_es, j);
                            }
                            if has_key(es, key) {
                                let j = choose|j: int| 0 <= j < es.len() && (#[trigger] es[j]).0@ == key;
                                assert(j != n);
                                assert(es[j] == old_es[j]);
                            }
                        }
                    }
                    assert(entries_map(es) =~= old_es_map_insert(old_es, kv, v));
                }
            },
        }
    }

    pub fn remove(&mut self, k: &str) -> (removed: Option<V>)
        ensures
            final(self)@ == old(self)@.remove(k@),
            match removed {
                Some(v) => old(self)@.contains_key(k@) && v == old(self)@[k@],
                None => !old(self)@.contains_key(k@),
            },
    {
        proof {
            use_type_invariant(&*self);
        }
        let ghost old_es = self.entries@;
        match self.find(k) {
            Some(i) => {
                let mut entries = Vec::new();
                std::mem::swap(&mut entries, &mut self.entries);
                proof {
                    lemma_value_at(old_es, i as int);
                }
                let (_, v) = entries.remove(i);
                let ghost es = entries@;
                assert forall|a: int, b: int|
                    0 <= a < es.len() && 0 <= b < es.len() && a != b implies (#[trigger] es[a]).0@
                    != (#[trigger] es[b]).0@ by {
                    let a2 = if a < i { a } else { a + 1 };
                    let b2 = if b < i { b } else { b + 1 };
                    assert(es[a] == old_es[a2]);
                    assert(es[b] == old_es[b2]);
                    assert(old_es[a2].0@ != old_es[b2].0@);
                }
                self.entries = entries;
                proof {
                    assert forall|key: Seq<char>| #[trigger]
                        entries_map(es).contains_key(key) == entries_map(old_es).remove(k@).contains_key(key)
                        && (entries_map(es).contains_key(key) ==> entries_map(es)[key] == entries_map(old_es).remove(k@)[key]) by {
                        if has_key(old_es, key) && key != k@ {
                            let j = choose|j: int| 0 <= j < old_es.len() && (#[trigger] old_es[j]).0@ == key;
                            assert(j != i);
                            let j2 = if j < i { j } else { j - 1 };
                            assert(es[j2] == old_es[j]);
                            lemma_value_at(es, j2);
                            lemma_value_at(old_es, j);
                        }
                        if has_key(es, key) {
                            let j = choose|j: int| 0 <= j < es.len() && (#[trigger] es[j]).0@ == key;
                            let j2 = if j < i { j } else { j + 1 };
                            assert(es[j] == old_es[j2]);
                            assert(j2 != i);
                            assert(old_es[j2].0@ != old_es[i as int].0@);
                        }
                    }
                    assert(entries_map(es) =~= entries_map(old_es).remove(k@));
                }
                Some(v)
            },
            None => {
                assert(entries_map(old_es) =~= entries_map(old_es).remove(k@));
                None
            },
        }
    }

    pub fn clear(&mut self)
        ensures
            final(self)@ == Map::<Seq<char>, V>::empty(),
    {
        self.entries = Vec::new();
        assert(self@ =~= Map::<Seq<char>, V>::empty());
    }

    pub fn is_empty(&self) -> (empty: bool)
        ensures
            empty == (self@.dom() == Set::<Seq<char>>::empty()),
    {
        if self.entries.len() == 0 {
            assert(self@.dom() =~= Set::<Seq<char>>::empty());
            true
        } else {
            proof {
                assert(has_key(self.entries@, self.entries@[0].0@));
                assert(self@.dom().contains(self.entries@[0].0@));
            }
            false
        }
    }
}

pub open spec fn old_es_map_insert<V>(es: Seq<(String, V)>, k: Seq<char>, v: V) -> Map<Seq<char>, V> {
    entries_map(es).insert(k, v)
}

} // verus!
