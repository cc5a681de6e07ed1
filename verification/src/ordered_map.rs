//! A map that remembers an order of its keys, as the inspector edits it: a
//! rank for each key and a value for each key. Listing it sorts the values
//! by the rank of their keys; a key without a rank counts as rank 0.
use vstd::prelude::*;
use crate::insertion::{lemma_insert_at, lemma_insert_permutation};
use crate::registry::{
    last_position, lemma_last_position_absent, lemma_last_position_bounds,
    lemma_last_position_found, lemma_last_position_present, RegistryKey,
};

verus! {

/// The keys of a list of pairs, by their views.
pub open spec fn key_views<K: View, X>(s: Seq<(K, X)>) -> Seq<K::V> {
    s.map_values(|e: (K, X)| e.0@)
}

/// No key occurs twice in a list of pairs.
pub open spec fn distinct_keys<K: View, X>(s: Seq<(K, X)>) -> bool {
    forall|a: int, b: int| 0 <= a < b < s.len() ==> s[a].0@ != s[b].0@
}

/// `a` is a copy of the entry `b`: the same key, and a clone of its value.
pub open spec fn is_copy_of<K: View, V: Clone>(a: (K, V), b: (K, V)) -> bool {
    a.0@ == b.0@ && cloned(b.1, a.1)
}

/// The last position of a key in a list of pairs.
pub open spec fn key_position<K: View, X>(s: Seq<(K, X)>, k: K::V) -> Option<int> {
    last_position(key_views(s), k)
}

/// The ranked entry `t` carries the rank and a clone of the value of the
/// last occurrence of its key in `prefix`.
pub open spec fn ranked_by_last<K: View, V: Clone>(
    order: Seq<(K, i32)>,
    values: Seq<(K, V)>,
    prefix: Seq<(K, V)>,
    t: int,
) -> bool {
    let l = key_position(prefix, order[t].0@)->0;
    &&& key_position(prefix, order[t].0@) is Some
    &&& 0 <= l < prefix.len()
    &&& order[t].1 == l as i32
    &&& cloned(prefix[l].1, values[t].1)
}

proof fn lemma_key_views_push<K: View, X>(s: Seq<(K, X)>, e: (K, X))
    ensures
        key_views(s.push(e)) == key_views(s).push(e.0@),
{
    assert(key_views(s.push(e)) =~= key_views(s).push(e.0@));
}

proof fn lemma_last_position_push<T>(s: Seq<T>, x: T, y: T)
    ensures
        last_position(s.push(x), y) == (if y == x { Some(s.len() as int) } else { last_position(s, y) }),
{
    assert(s.push(x).drop_last() =~= s);
}

/// A key that occurs only once in a list is found at that position.
proof fn lemma_key_position_distinct<K: View, X>(s: Seq<(K, X)>, i: int)
    requires
        distinct_keys(s),
        0 <= i < s.len(),
    ensures
        key_position(s, s[i].0@) == Some(i),
{
    lemma_last_position_found(key_views(s), s[i].0@, i);
}

/// Inserting a rank after all smaller-or-equal ones and before the first
/// larger one keeps a sorted list sorted.
proof fn lemma_insert_sorted(s: Seq<i32>, p: int, x: i32)
    requires
        0 <= p <= s.len(),
        forall|a: int, b: int| 0 <= a < b < s.len() ==> s[a] <= s[b],
        forall|a: int| 0 <= a < p ==> s[a] <= x,
        p < s.len() ==> s[p] > x,
    ensures
        forall|a: int, b: int| 0 <= a < b < s.len() + 1 ==> s.insert(p, x)[a] <= s.insert(p, x)[b],
{
    lemma_insert_at(s, p, x);
    assert forall|a: int, b: int| 0 <= a < b < s.len() + 1 implies s.insert(p, x)[a] <= s.insert(p, x)[b] by {
        if b > p && a == p {
            assert(s[p] <= s[b - 1]);
        } else if b > p && a < p {
            assert(s[a] <= s[b - 1]);
        } else if b > p {
            assert(s[a - 1] <= s[b - 1]);
        }
    }
}

/// A ranked map: `order` gives each key its rank, `values` its value.
#[derive(Debug, Clone)]
pub struct OrderedMap<K, V> {
    pub order: Vec<(K, i32)>,
    pub values: Vec<(K, V)>,
}

impl<K: RegistryKey, V: Clone> OrderedMap<K, V> {
    /// Each key has at most one rank and at most one value.
    pub open spec fn wf(&self) -> bool {
        distinct_keys(self.order@) && distinct_keys(self.values@)
    }

    pub open spec fn has_rank(&self, k: K::V) -> bool {
        key_position(self.order@, k) is Some
    }

    /// The rank of `k`; 0 for a key without one.
    pub open spec fn rank_of(&self, k: K::V) -> i32 {
        match key_position(self.order@, k) {
            Some(i) => self.order@[i].1,
            None => 0,
        }
    }

    pub open spec fn has_value(&self, k: K::V) -> bool {
        key_position(self.values@, k) is Some
    }

    /// The value stored for `k`, where it has one.
    pub open spec fn value_of(&self, k: K::V) -> V {
        self.values@[key_position(self.values@, k)->0].1
    }

    /// The stored entries are already in order of rank.
    pub open spec fn values_in_rank_order(&self) -> bool {
        forall|a: int, b: int|
            0 <= a < b < self.values.len() ==> self.rank_of(#[trigger] self.values@[a].0@)
                <= self.rank_of(#[trigger] self.values@[b].0@)
    }

    /// What [`Self::to_vec`] returns: every entry once, copied, in order of rank.
    pub open spec fn is_listing(&self, r: Seq<(K, V)>) -> bool {
        &&& r.len() == self.values.len()
        &&& forall|i: int| 0 <= i < r.len() ==> exists|j: int|
            0 <= j < self.values.len() && is_copy_of(#[trigger] r[i], self.values@[j])
        &&& forall|j: int| 0 <= j < self.values.len() ==> exists|i: int|
            0 <= i < r.len() && is_copy_of(r[i], #[trigger] self.values@[j])
        &&& forall|a: int, b: int|
            0 <= a < b < r.len() ==> self.rank_of(#[trigger] r[a].0@) <= self.rank_of(#[trigger] r[b].0@)
        &&& self.values_in_rank_order() ==> forall|i: int|
            0 <= i < r.len() ==> is_copy_of(#[trigger] r[i], self.values@[i])
    }

    /// What [`Self::from_vec`] returns for `vec`: the keys of `vec`, each
    /// ranked by and holding the value of its last occurrence.
    pub open spec fn is_built_from(&self, vec: Seq<(K, V)>) -> bool {
        &&& self.wf()
        &&& forall|k: K::V| #[trigger] self.has_rank(k) <==> key_position(vec, k) is Some
        &&& forall|k: K::V| #[trigger] self.has_value(k) <==> key_position(vec, k) is Some
        &&& forall|i: int|
            0 <= i < vec.len() && key_position(vec, vec[i].0@) == Some(i) ==> {
                &&& self.rank_of(#[trigger] vec[i].0@) == i as i32
                &&& cloned(vec[i].1, self.value_of(vec[i].0@))
            }
        &&& distinct_keys(vec) ==> {
            &&& self.values.len() == vec.len()
            &&& forall|i: int| 0 <= i < vec.len() ==> is_copy_of(#[trigger] self.values@[i], vec[i])
        }
    }

    /// The position of `k` among the ranked keys.
    fn find_rank(&self, k: &K) -> (r: Option<usize>)
        requires
            self.wf(),
        ensures
            match r {
                Some(q) => q < self.order.len() && key_position(self.order@, k@) == Some(q as int),
                None => key_position(self.order@, k@) is None,
            },
    {
        let mut q: usize = 0;
        while q < self.order.len()
            invariant
                self.wf(),
                q <= self.order.len(),
                forall|t: int| 0 <= t < q ==> self.order@[t].0@ != k@,
            decreases self.order.len() - q,
        {
            if self.order[q].0.same_key(k) {
                proof {
                    assert(key_views(self.order@)[q as int] == k@);
                    assert forall|t: int| q < t < key_views(self.order@).len() implies key_views(
                        self.order@,
                    )[t] != k@ by {
                        assert(key_views(self.order@)[t] == self.order@[t].0@);
                        assert(self.order@[q as int].0@ != self.order@[t].0@);
                    }
                    lemma_last_position_found(key_views(self.order@), k@, q as int);
                }
                return Some(q);
            }
            q = q + 1;
        }
        proof {
            assert forall|t: int| 0 <= t < key_views(self.order@).len() implies key_views(
                self.order@,
            )[t] != k@ by {
                assert(key_views(self.order@)[t] == self.order@[t].0@);
            }
            lemma_last_position_absent(key_views(self.order@), k@);
        }
        None
    }

    /// The rank of `k`, 0 where it has none.
    pub fn rank(&self, k: &K) -> (r: i32)
        requires
            self.wf(),
        ensures
            r == self.rank_of(k@),
    {
        match self.find_rank(k) {
            Some(q) => self.order[q].1,
            None => 0,
        }
    }

    /// The entries, each copied, sorted by the rank of their keys. Entries
    /// of equal rank come in no particular order.
    #[verifier::rlimit(40)]
    pub fn to_vec(&self) -> (r: Vec<(K, V)>)
        requires
            self.wf(),
        ensures
            self.is_listing(r@),
    {
        let n = self.values.len();
        let mut r: Vec<(K, V)> = Vec::new();
        let mut ranks: Vec<i32> = Vec::new();
        let ghost mut src: Seq<int> = Seq::empty();
        let ghost mut pos: Seq<int> = Seq::empty();
        let mut j: usize = 0;
        while j < n
            invariant
                n == self.values.len(),
                self.wf(),
                j <= n,
                r.len() == j,
                ranks.len() == j,
                src.len() == j,
                pos.len() == j,
                forall|a: int| 0 <= a < j ==> ranks@[a] == self.rank_of(#[trigger] r@[a].0@),
                forall|a: int, b: int| 0 <= a < b < j ==> ranks@[a] <= ranks@[b],
                forall|a: int|
                    0 <= a < j ==> 0 <= #[trigger] src[a] < j && is_copy_of(r@[a], self.values@[src[a]]),
                forall|t: int| 0 <= t < j ==> 0 <= #[trigger] pos[t] < j && src[pos[t]] == t,
                self.values_in_rank_order() ==> forall|a: int| 0 <= a < j ==> #[trigger] src[a] == a,
            decreases n - j,
        {
            let key = self.values[j].0.duplicate();
            let value = self.values[j].1.clone();
            let rk = self.rank(&key);
            let mut p: usize = 0;
            while p < ranks.len() && ranks[p] <= rk
                invariant
                    p <= ranks.len(),
                    forall|a: int| 0 <= a < p ==> ranks@[a] <= rk,
                decreases ranks.len() - p,
            {
                p = p + 1;
            }
            proof {
                if self.values_in_rank_order() && p < j {
                    assert(self.rank_of(self.values@[p as int].0@) <= self.rank_of(self.values@[j as int].0@));
                    assert(src[p as int] == p);
                    assert(ranks@[p as int] == self.rank_of(r@[p as int].0@));
                    assert(false);
                }
            }
            let ghost old_r = r@;
            let ghost old_ranks = ranks@;
            let ghost old_src = src;
            let ghost old_pos = pos;
            let entry = (key, value);
            let ghost e = entry;
            r.insert(p, entry);
            ranks.insert(p, rk);
            proof {
                src = old_src.insert(p as int, j as int);
                pos = old_pos.map_values(|x: int| if x >= p { x + 1 } else { x }).push(p as int);
                lemma_insert_at(old_r, p as int, e);
                lemma_insert_at(old_ranks, p as int, rk);
                lemma_insert_sorted(old_ranks, p as int, rk);
                lemma_insert_permutation(old_src, old_pos, p as int, j as int);
                assert forall|a: int| 0 <= a < j + 1 implies ranks@[a] == self.rank_of(
                    #[trigger] r@[a].0@,
                ) && is_copy_of(r@[a], self.values@[src[a]]) by {
                    if a > p {
                        assert(r@[a] == old_r[a - 1]);
                        assert(ranks@[a] == old_ranks[a - 1]);
                    }
                }
                if self.values_in_rank_order() {
                    assert(p == j);
                }
            }
            j = j + 1;
        }
        proof {
            assert forall|i: int| 0 <= i < r@.len() implies exists|t: int|
                0 <= t < self.values.len() && is_copy_of(#[trigger] r@[i], self.values@[t]) by {
                assert(is_copy_of(r@[i], self.values@[src[i]]));
            }
            assert forall|t: int| 0 <= t < self.values.len() implies exists|i: int|
                0 <= i < r@.len() && is_copy_of(r@[i], #[trigger] self.values@[t]) by {
                assert(is_copy_of(r@[pos[t]], self.values@[src[pos[t]]]));
            }
            assert forall|a: int, b: int| 0 <= a < b < r@.len() implies self.rank_of(
                #[trigger] r@[a].0@,
            ) <= self.rank_of(#[trigger] r@[b].0@) by {
                assert(ranks@[a] <= ranks@[b]);
            }
            if self.values_in_rank_order() {
                assert forall|i: int| 0 <= i < r@.len() implies is_copy_of(
                    #[trigger] r@[i],
                    self.values@[i],
                ) by {
                    assert(src[i] == i);
                    assert(is_copy_of(r@[i], self.values@[src[i]]));
                }
            }
        }
        r
    }

    /// A map with the keys of `vec`, each ranked by the position of its last
    /// occurrence and holding the value found there.
    pub fn from_vec(vec: &[(K, V)]) -> (m: Self)
        ensures
            m.is_built_from(vec@),
    {
        let mut m: OrderedMap<K, V> = OrderedMap { order: Vec::new(), values: Vec::new() };
        let mut i: usize = 0;
        while i < vec.len()
            invariant
                i <= vec.len(),
                m.wf(),
                key_views(m.order@) == key_views(m.values@),
                forall|k: K::V|
                    #[trigger] key_position(m.order@, k) is Some <==> key_position(
                        vec@.take(i as int),
                        k,
                    ) is Some,
                forall|t: int|
                    0 <= t < m.order.len() ==> #[trigger] ranked_by_last(
                        m.order@,
                        m.values@,
                        vec@.take(i as int),
                        t,
                    ),
                distinct_keys(vec@.take(i as int)) ==> {
                    &&& m.values.len() == i
                    &&& forall|t: int| 0 <= t < i ==> is_copy_of(#[trigger] m.values@[t], vec@[t])
                },
            decreases vec.len() - i,
        {
            let ghost prefix = vec@.take(i as int);
            let ghost next = vec@.take(i + 1);
            let ghost old_m = m;
            proof {
                assert(next =~= prefix.push(vec@[i as int]));
                lemma_key_views_push(prefix, vec@[i as int]);
            }
            let key = vec[i].0.duplicate();
            let value = vec[i].1.clone();
            let rank = i as i32;
            let ghost kv = key@;
            match m.find_rank(&key) {
                Some(q) => {
                    let k1 = key.duplicate();
                    m.order.set(q, (key, rank));
                    m.values.set(q, (k1, value));
                    proof {
                        lemma_last_position_bounds(key_views(old_m.order@), kv);
                        assert(key_views(old_m.order@)[q as int] == kv);
                        assert(key_views(old_m.values@)[q as int] == kv);
                        assert(key_views(m.order@) =~= key_views(old_m.order@));
                        assert(key_views(m.values@) =~= key_views(old_m.values@));
                        assert forall|k: K::V| #[trigger] key_position(m.order@, k) is Some
                            <==> key_position(next, k) is Some by {
                            lemma_last_position_push(key_views(prefix), kv, k);
                            assert(key_position(m.order@, k) == key_position(old_m.order@, k));
                        }
                        assert forall|t: int| 0 <= t < m.order.len() implies #[trigger] ranked_by_last(
                            m.order@,
                            m.values@,
                            next,
                            t,
                        ) by {
                            lemma_last_position_push(key_views(prefix), kv, m.order@[t].0@);
                            if t != q {
                                assert(m.order@[t] == old_m.order@[t]);
                                assert(m.values@[t] == old_m.values@[t]);
                                assert(ranked_by_last(old_m.order@, old_m.values@, prefix, t));
                                assert(key_views(old_m.order@)[t] == old_m.order@[t].0@);
                                assert(old_m.order@[t].0@ != old_m.order@[q as int].0@);
                            }
                        }
                        // the key occurred before, so the longer prefix repeats it
                        let l = key_position(prefix, kv)->0;
                        lemma_last_position_bounds(key_views(prefix), kv);
                        assert(key_views(prefix)[l] == prefix[l].0@);
                        assert(next[l].0@ == next[i as int].0@);
                    }
                },
                None => {
                    let k1 = key.duplicate();
                    m.order.push((key, rank));
                    m.values.push((k1, value));
                    proof {
                        lemma_key_views_push(old_m.order@, (key, rank));
                        lemma_key_views_push(old_m.values@, (k1, value));
                        assert forall|a: int, b: int| 0 <= a < b < m.order.len() implies m.order@[a].0@
                            != m.order@[b].0@ by {
                            if b == old_m.order.len() {
                                assert(key_views(old_m.order@)[a] == old_m.order@[a].0@);
                                lemma_last_position_present(key_views(old_m.order@), m.order@[a].0@, a);
                            }
                        }
                        assert forall|a: int, b: int| 0 <= a < b < m.values.len() implies m.values@[a].0@
                            != m.values@[b].0@ by {
                            if b == old_m.values.len() {
                                assert(key_views(old_m.values@)[a] == old_m.values@[a].0@);
                                assert(key_views(old_m.order@)[a] == old_m.order@[a].0@);
                                lemma_last_position_present(key_views(old_m.order@), m.values@[a].0@, a);
                            }
                        }
                        assert forall|k: K::V| #[trigger] key_position(m.order@, k) is Some
                            <==> key_position(next, k) is Some by {
                            lemma_last_position_push(key_views(prefix), kv, k);
                            lemma_last_position_push(key_views(old_m.order@), kv, k);
                            assert(key_position(old_m.order@, k) is Some <==> key_position(prefix, k) is Some);
                        }
                        assert forall|t: int| 0 <= t < m.order.len() implies #[trigger] ranked_by_last(
                            m.order@,
                            m.values@,
                            next,
                            t,
                        ) by {
                            lemma_last_position_push(key_views(prefix), kv, m.order@[t].0@);
                            if t < old_m.order.len() {
                                assert(m.order@[t] == old_m.order@[t]);
                                assert(m.values@[t] == old_m.values@[t]);
                                assert(ranked_by_last(old_m.order@, old_m.values@, prefix, t));
                                assert(key_views(old_m.order@)[t] == old_m.order@[t].0@);
                                if m.order@[t].0@ == kv {
                                    lemma_last_position_present(key_views(old_m.order@), kv, t);
                                }
                            }
                        }
                        if distinct_keys(next) {
                            assert(distinct_keys(prefix));
                            assert forall|t: int| 0 <= t < i + 1 implies is_copy_of(
                                #[trigger] m.values@[t],
                                vec@[t],
                            ) by {
                                if t < i {
                                    assert(m.values@[t] == old_m.values@[t]);
                                }
                            }
                        }
                    }
                },
            }
            i = i + 1;
        }
        proof {
            assert(vec@.take(vec.len() as int) =~= vec@);
            assert forall|k: K::V| #[trigger] m.has_value(k) <==> key_position(vec@, k) is Some by {
                assert(key_position(m.values@, k) == key_position(m.order@, k));
            }
            assert forall|i: int|
                0 <= i < vec.len() && key_position(vec@, vec@[i].0@) == Some(i) implies {
                &&& m.rank_of(#[trigger] vec@[i].0@) == i as i32
                &&& cloned(vec@[i].1, m.value_of(vec@[i].0@))
            } by {
                let k = vec@[i].0@;
                lemma_last_position_bounds(key_views(m.order@), k);
                assert(key_position(m.order@, k) is Some);
                let t = key_position(m.order@, k)->0;
                assert(key_views(m.order@)[t] == m.order@[t].0@);
                assert(ranked_by_last(m.order@, m.values@, vec@.take(vec.len() as int), t));
                assert(key_position(m.values@, k) == Some(t));
            }
        }
        m
    }
}

impl<K, V> Default for OrderedMap<K, V> {
    fn default() -> (m: Self)
        ensures
            m.order@.len() == 0,
            m.values@.len() == 0,
    {
        OrderedMap { order: Vec::new(), values: Vec::new() }
    }
}

/// Turning a list whose keys are all different into an ordered map and
/// listing that map gives back the list's keys in their order, each with
/// the value that the map stored for it (a clone of the list's value).
/// It needs every position of the list to fit in an `i32` rank.
pub proof fn law_listing_restores_list<K: RegistryKey, V: Clone>(
    vec: Seq<(K, V)>,
    m: OrderedMap<K, V>,
    r: Seq<(K, V)>,
)
    requires
        distinct_keys(vec),
        vec.len() <= 0x8000_0000,
        m.is_built_from(vec),
        m.is_listing(r),
    ensures
        r.len() == vec.len(),
        forall|i: int| 0 <= i < vec.len() ==> #[trigger] r[i].0@ == vec[i].0@,
        forall|i: int| 0 <= i < vec.len() ==> cloned(vec[i].1, m.values@[i].1) && cloned(m.values@[i].1, #[trigger] r[i].1),
{
    assert forall|i: int| 0 <= i < vec.len() implies m.rank_of(#[trigger] m.values@[i].0@) == i as i32 by {
        lemma_key_position_distinct(vec, i);
        assert(is_copy_of(m.values@[i], vec[i]));
    }
    assert(m.values_in_rank_order()) by {
        assert forall|a: int, b: int| 0 <= a < b < m.values.len() implies m.rank_of(
            #[trigger] m.values@[a].0@,
        ) <= m.rank_of(#[trigger] m.values@[b].0@) by {
            assert(m.rank_of(m.values@[a].0@) == a as i32);
            assert(m.rank_of(m.values@[b].0@) == b as i32);
        }
    }
    assert forall|i: int| 0 <= i < vec.len() implies #[trigger] r[i].0@ == vec[i].0@ by {
        assert(is_copy_of(r[i], m.values@[i]));
        assert(is_copy_of(m.values@[i], vec[i]));
    }
    assert forall|i: int| 0 <= i < vec.len() implies cloned(vec[i].1, m.values@[i].1) && cloned(
        m.values@[i].1,
        #[trigger] r[i].1,
    ) by {
        assert(is_copy_of(r[i], m.values@[i]));
        assert(is_copy_of(m.values@[i], vec[i]));
    }
}

} // verus!
