//! A small map from keys to values, kept as a list of entries in which no
//! key occurs twice: inserting an existing key replaces its value.
use vstd::prelude::*;
use crate::ordered_map::{distinct_keys, key_position, key_views};
use crate::registry::{
    last_position, lemma_last_position_absent, lemma_last_position_bounds,
    lemma_last_position_found, RegistryKey,
};

verus! {

pub proof fn lemma_distinct_position<K: View, X>(s: Seq<(K, X)>, i: int)
    requires
        distinct_keys(s),
        0 <= i < s.len(),
    ensures
        key_position(s, s[i].0@) == Some(i),
{
    assert forall|j: int| i < j < key_views(s).len() implies key_views(s)[j] != s[i].0@ by {
        assert(key_views(s)[j] == s[j].0@);
    }
    lemma_last_position_found(key_views(s), s[i].0@, i);
}

proof fn lemma_absent_position<K: View, X>(s: Seq<(K, X)>, k: K::V)
    requires
        forall|j: int| 0 <= j < s.len() ==> s[j].0@ != k,
    ensures
        key_position(s, k) is None,
{
    assert forall|j: int| 0 <= j < key_views(s).len() implies key_views(s)[j] != k by {
        assert(key_views(s)[j] == s[j].0@);
    }
    lemma_last_position_absent(key_views(s), k);
}

pub proof fn lemma_position_entry<K: View, X>(s: Seq<(K, X)>, k: K::V)
    requires
        key_position(s, k) is Some,
    ensures
        0 <= key_position(s, k)->0 < s.len(),
        s[key_position(s, k)->0].0@ == k,
{
    lemma_last_position_bounds(key_views(s), k);
    assert(key_views(s)[key_position(s, k)->0] == s[key_position(s, k)->0].0@);
}

/// A map kept as a list of entries, each key at most once.
#[derive(Debug, Clone)]
pub struct KeyMap<K, V> {
    pub entries: Vec<(K, V)>,
}

impl<K: RegistryKey, V> KeyMap<K, V> {
    pub open spec fn wf(&self) -> bool {
        distinct_keys(self.entries@)
    }

    /// The map from each key (by its view) to its value.
    pub open spec fn view_map(&self) -> Map<K::V, V> {
        Map::new(
            |k: K::V| key_position(self.entries@, k) is Some,
            |k: K::V| self.entries@[key_position(self.entries@, k)->0].1,
        )
    }

    pub fn new() -> (m: Self)
        ensures
            m.wf(),
            m.view_map() == Map::<K::V, V>::empty(),
            m.entries@.len() == 0,
    {
        let m = KeyMap { entries: Vec::new() };
        assert(m.view_map() =~= Map::<K::V, V>::empty());
        m
    }

    fn position(&self, k: &K) -> (r: Option<usize>)
        requires
            self.wf(),
        ensures
            match r {
                Some(i) => i < self.entries.len() && key_position(self.entries@, k@) == Some(i as int)
                    && self.entries@[i as int].0@ == k@,
                None => key_position(self.entries@, k@) is None,
            },
    {
        let mut i: usize = 0;
        while i < self.entries.len()
            invariant
                self.wf(),
                i <= self.entries.len(),
                forall|j: int| 0 <= j < i ==> self.entries@[j].0@ != k@,
            decreases self.entries.len() - i,
        {
            if self.entries[i].0.same_key(k) {
                proof {
                    lemma_distinct_position(self.entries@, i as int);
                }
                return Some(i);
            }
            i = i + 1;
        }
        proof {
            lemma_absent_position(self.entries@, k@);
        }
        None
    }

    /// The value of `k`.
    pub fn get(&self, k: &K) -> (r: Option<&V>)
        requires
            self.wf(),
        ensures
            match r {
                Some(v) => self.view_map().contains_key(k@) && *v == self.view_map()[k@],
                None => !self.view_map().contains_key(k@),
            },
    {
        match self.position(k) {
            Some(i) => Some(&self.entries[i].1),
            None => None,
        }
    }

    /// Whether `k` has a value.
    pub fn contains(&self, k: &K) -> (b: bool)
        requires
            self.wf(),
        ensures
            b == self.view_map().contains_key(k@),
    {
        self.position(k).is_some()
    }

    /// Gives `k` the value `v`, replacing the value it had.
    pub fn insert(&mut self, k: K, v: V)
        requires
            old(self).wf(),
        ensures
            final(self).wf(),
            final(self).view_map() == old(self).view_map().insert(k@, v),
    {
        let ghost kv = k@;
        let ghost old_entries = self.entries@;
        match self.position(&k) {
            Some(i) => {
                self.entries.set(i, (k, v));
                proof {
                    let s = self.entries@;
                    assert(key_views(s) =~= key_views(old_entries)) by {
                        assert forall|j: int| 0 <= j < s.len() implies key_views(s)[j] == key_views(
                            old_entries,
                        )[j] by {
                            assert(key_views(s)[j] == s[j].0@);
                            assert(key_views(old_entries)[j] == old_entries[j].0@);
                        }
                    }
                    assert forall|q: K::V| key_position(s, q) is Some && q != kv implies s[key_position(
                        s,
                        q,
                    )->0] == old_entries[key_position(old_entries, q)->0] by {
                        lemma_position_entry(s, q);
                    }
                    assert(self.view_map() =~= old(self).view_map().insert(kv, v));
                }
            },
            None => {
                self.entries.push((k, v));
                proof {
                    let s = self.entries@;
                    let e = s[old_entries.len() as int];
                    assert(s =~= old_entries.push(e));
                    assert(key_views(s) =~= key_views(old_entries).push(kv));
                    assert(distinct_keys(s)) by {
                        assert forall|a: int, b: int| 0 <= a < b < s.len() implies s[a].0@ != s[b].0@ by {
                            if b == old_entries.len() {
                                assert(key_views(old_entries)[a] == old_entries[a].0@);
                                crate::registry::lemma_last_position_present(
                                    key_views(old_entries),
                                    old_entries[a].0@,
                                    a,
                                );
                            }
                        }
                    }
                    assert forall|q: K::V| #[trigger] key_position(s, q) == (if q == kv {
                        Some(old_entries.len() as int)
                    } else {
                        key_position(old_entries, q)
                    }) by {
                        assert(key_views(s).drop_last() =~= key_views(old_entries));
                    }
                    assert forall|q: K::V| key_position(old_entries, q) is Some implies s[key_position(
                        old_entries,
                        q,
                    )->0] == old_entries[key_position(old_entries, q)->0] by {
                        lemma_position_entry(old_entries, q);
                    }
                    assert(self.view_map() =~= old(self).view_map().insert(kv, v));
                }
            },
        }
    }

    /// Removes `k` and its value, which is returned.
    pub fn remove(&mut self, k: &K) -> (r: Option<V>)
        requires
            old(self).wf(),
        ensures
            final(self).wf(),
            final(self).view_map() == old(self).view_map().remove(k@),
            r == old(self).view_map().get(k@),
    {
        let ghost old_entries = self.entries@;
        match self.position(k) {
            Some(i) => {
                let (_, v) = self.entries.remove(i);
                proof {
                    let s = self.entries@;
                    old_entries.remove_ensures(i as int);
                    assert(s =~= old_entries.remove(i as int));
                    assert(distinct_keys(s)) by {
                        assert forall|a: int, b: int| 0 <= a < b < s.len() implies s[a].0@ != s[b].0@ by {
                            let oa = if a < i { a } else { a + 1 };
                            let ob = if b < i { b } else { b + 1 };
                            assert(s[a] == old_entries[oa]);
                            assert(s[b] == old_entries[ob]);
                        }
                    }
                    assert forall|q: K::V| #[trigger] key_position(s, q) is Some <==> key_position(
                        old_entries,
                        q,
                    ) is Some && q != k@ by {
                        if key_position(s, q) is Some {
                            lemma_position_entry(s, q);
                            let a = key_position(s, q)->0;
                            let oa = if a < i { a } else { a + 1 };
                            assert(s[a] == old_entries[oa]);
                            lemma_distinct_position(old_entries, oa);
                            lemma_distinct_position(old_entries, i as int);
                        }
                        if key_position(old_entries, q) is Some && q != k@ {
                            lemma_position_entry(old_entries, q);
                            let oa = key_position(old_entries, q)->0;
                            assert(oa != i);
                            let a = if oa < i { oa } else { oa - 1 };
                            assert(s[a] == old_entries[oa]);
                            lemma_distinct_position(s, a);
                        }
                    }
                    assert forall|q: K::V| key_position(s, q) is Some implies s[key_position(s, q)->0]
                        == old_entries[key_position(old_entries, q)->0] by {
                        lemma_position_entry(s, q);
                        let a = key_position(s, q)->0;
                        let oa = if a < i { a } else { a + 1 };
                        assert(s[a] == old_entries[oa]);
                        lemma_distinct_position(old_entries, oa);
                    }
                    lemma_distinct_position(old_entries, i as int);
                    assert(self.view_map() =~= old(self).view_map().remove(k@));
                }
                Some(v)
            },
            None => {
                proof {
                    assert(self.view_map() =~= old(self).view_map().remove(k@));
                }
                None
            },
        }
    }

    /// The keys, in the order of the entries: each key with a value once.
    pub fn keys(&self) -> (r: Vec<K>)
        ensures
            r@.len() == self.entries@.len(),
            forall|i: int| 0 <= i < r@.len() ==> #[trigger] r@[i]@ == self.entries@[i].0@,
            forall|k: K::V| #[trigger] self.view_map().contains_key(k) ==> exists|i: int| 0 <= i < r@.len() && r@[i]@ == k,
            self.wf() ==> forall|a: int, b: int| 0 <= a < b < r@.len() ==> r@[a]@ != r@[b]@,
    {
        let mut r: Vec<K> = Vec::new();
        let mut i: usize = 0;
        while i < self.entries.len()
            invariant
                i <= self.entries.len(),
                r@.len() == i,
                forall|j: int| 0 <= j < i ==> #[trigger] r@[j]@ == self.entries@[j].0@,
            decreases self.entries.len() - i,
        {
            r.push(self.entries[i].0.duplicate());
            i = i + 1;
        }
        proof {
            assert forall|k: K::V| #[trigger] self.view_map().contains_key(k) implies exists|i: int| 0 <= i < r@.len() && r@[i]@ == k by {
                lemma_position_entry(self.entries@, k);
                let i = key_position(self.entries@, k)->0;
                assert(r@[i]@ == k);
            }
        }
        r
    }
}

} // verus!
