//! A registry that hands out consecutive integer ids to keys and remembers
//! the mapping in both directions.
//!
//! Its abstract state is the pair of maps of the editor's index tables
//! (key to id and id to key) together with the next id to hand out.
//! Registering a key that is already present gives it a fresh id: the
//! key-to-id map then points at the newest id, while the older id keeps
//! resolving to the key.
use vstd::prelude::*;

verus! {

/// Keys that a [`Registry`] can hold: compared and copied through their view.
pub trait RegistryKey: View + Sized {
    fn same_key(&self, other: &Self) -> (b: bool)
        ensures
            b == (self@ == other@),
    ;

    fn duplicate(&self) -> (r: Self)
        ensures
            r@ == self@,
    ;
}

impl RegistryKey for String {
    fn same_key(&self, other: &Self) -> (b: bool) {
        *self == *other
    }

    fn duplicate(&self) -> (r: Self) {
        self.clone()
    }
}

impl RegistryKey for usize {
    fn same_key(&self, other: &Self) -> (b: bool) {
        *self == *other
    }

    fn duplicate(&self) -> (r: Self) {
        *self
    }
}

impl RegistryKey for u64 {
    fn same_key(&self, other: &Self) -> (b: bool) {
        *self == *other
    }

    fn duplicate(&self) -> (r: Self) {
        *self
    }
}

impl RegistryKey for u128 {
    fn same_key(&self, other: &Self) -> (b: bool) {
        *self == *other
    }

    fn duplicate(&self) -> (r: Self) {
        *self
    }
}

impl<A: RegistryKey, B: RegistryKey> RegistryKey for (A, B) {
    fn same_key(&self, other: &Self) -> (b: bool) {
        self.0.same_key(&other.0) && self.1.same_key(&other.1)
    }

    fn duplicate(&self) -> (r: Self) {
        (self.0.duplicate(), self.1.duplicate())
    }
}

impl<A: RegistryKey, B: RegistryKey, C: RegistryKey> RegistryKey for (A, B, C) {
    fn same_key(&self, other: &Self) -> (b: bool) {
        self.0.same_key(&other.0) && self.1.same_key(&other.1) && self.2.same_key(&other.2)
    }

    fn duplicate(&self) -> (r: Self) {
        (self.0.duplicate(), self.1.duplicate(), self.2.duplicate())
    }
}

/// The position of the last occurrence of `k` in `s`, if any.
pub open spec fn last_position<V>(s: Seq<V>, k: V) -> Option<int>
    decreases s.len(),
{
    if s.len() == 0 {
        None
    } else if s.last() == k {
        Some(s.len() - 1)
    } else {
        last_position(s.drop_last(), k)
    }
}

/// An optional `usize` read as an optional natural number.
pub open spec fn opt_nat(o: Option<usize>) -> Option<nat> {
    match o {
        Some(i) => Some(i as nat),
        None => None,
    }
}

pub proof fn lemma_last_position_found<V>(s: Seq<V>, k: V, i: int)
    requires
        0 <= i < s.len(),
        s[i] == k,
        forall|j: int| i < j < s.len() ==> s[j] != k,
    ensures
        last_position(s, k) == Some(i),
    decreases s.len(),
{
    if i < s.len() - 1 {
        lemma_last_position_found(s.drop_last(), k, i);
    }
}

pub proof fn lemma_last_position_absent<V>(s: Seq<V>, k: V)
    requires
        forall|j: int| 0 <= j < s.len() ==> s[j] != k,
    ensures
        last_position(s, k) is None,
    decreases s.len(),
{
    if s.len() > 0 {
        lemma_last_position_absent(s.drop_last(), k);
    }
}

pub proof fn lemma_last_position_bounds<V>(s: Seq<V>, k: V)
    ensures
        last_position(s, k) matches Some(i) ==> 0 <= i < s.len() && s[i] == k,
    decreases s.len(),
{
    if s.len() > 0 && s.last() != k {
        lemma_last_position_bounds(s.drop_last(), k);
    }
}

/// The key-to-id map of a registry whose keys, oldest first, are `keys` and
/// whose first id is `first`: each key goes to its most recent id.
pub open spec fn key_to_id_of<V>(keys: Seq<V>, first: nat) -> Map<V, nat> {
    Map::new(
        |k: V| last_position(keys, k) is Some,
        |k: V| (first + last_position(keys, k)->0) as nat,
    )
}

/// The id-to-key map of a registry whose keys, oldest first, are `keys` and
/// whose first id is `first`.
pub open spec fn id_to_key_of<V>(keys: Seq<V>, first: nat) -> Map<nat, V> {
    Map::new(|i: nat| first <= i < first + keys.len(), |i: nat| keys[i - first])
}

pub proof fn lemma_last_position_present<V>(s: Seq<V>, k: V, i: int)
    requires
        0 <= i < s.len(),
        s[i] == k,
    ensures
        last_position(s, k) is Some,
    decreases s.len(),
{
    if s.last() != k {
        lemma_last_position_present(s.drop_last(), k, i);
    }
}

/// A key that was registered has an id.
pub proof fn law_registered_key_has_id<V>(keys: Seq<V>, first: nat, i: int)
    requires
        0 <= i < keys.len(),
    ensures
        key_to_id_of(keys, first).contains_key(keys[i]),
{
    lemma_last_position_present(keys, keys[i], i);
}

/// A key's current id resolves back to that key.
pub proof fn law_key_id_resolves_to_key<V>(keys: Seq<V>, first: nat, k: V)
    requires
        key_to_id_of(keys, first).contains_key(k),
    ensures
        id_to_key_of(keys, first).contains_key(key_to_id_of(keys, first)[k]),
        id_to_key_of(keys, first)[key_to_id_of(keys, first)[k]] == k,
{
    lemma_last_position_bounds(keys, k);
}

/// Consecutive ids handed out to keys, starting at a fixed first id.
pub struct Registry<K> {
    keys: Vec<K>,
    first: usize,
}

impl<K: RegistryKey> Registry<K> {
    /// The registered keys, oldest first, by their views.
    pub closed spec fn key_views(&self) -> Seq<K::V> {
        self.keys@.map_values(|k: K| k@)
    }

    /// The id given to the first key ever registered.
    pub closed spec fn first_id(&self) -> nat {
        self.first as nat
    }

    /// The id that the next registration will hand out.
    pub open spec fn next_id(&self) -> nat {
        self.first_id() + self.key_views().len()
    }

    /// Each registered key and the id of its most recent registration.
    pub open spec fn key_to_id(&self) -> Map<K::V, nat> {
        key_to_id_of(self.key_views(), self.first_id())
    }

    /// Each id handed out and the key it was handed out to.
    pub open spec fn id_to_key(&self) -> Map<nat, K::V> {
        id_to_key_of(self.key_views(), self.first_id())
    }

    /// The ids handed out fit in a `usize`.
    pub open spec fn wf(&self) -> bool {
        self.next_id() <= usize::MAX
    }

    /// An empty registry whose first id will be `first`.
    pub fn new(first: usize) -> (r: Self)
        ensures
            r.wf(),
            r.first_id() == first,
            r.next_id() == first,
            r.key_views() == Seq::<K::V>::empty(),
            r.key_to_id() == Map::<K::V, nat>::empty(),
            r.id_to_key() == Map::<nat, K::V>::empty(),
    {
        let r = Registry { keys: Vec::new(), first };
        assert(r.key_views() =~= Seq::<K::V>::empty());
        assert(r.key_to_id() =~= Map::<K::V, nat>::empty());
        assert(r.id_to_key() =~= Map::<nat, K::V>::empty());
        r
    }

    /// Hands out the next id to `key` and records it in both directions.
    pub fn add(&mut self, key: K) -> (id: usize)
        requires
            old(self).wf(),
            old(self).next_id() < usize::MAX,
        ensures
            final(self).wf(),
            id == old(self).next_id(),
            final(self).first_id() == old(self).first_id(),
            final(self).next_id() == old(self).next_id() + 1,
            final(self).key_views() == old(self).key_views().push(key@),
            final(self).key_to_id() == old(self).key_to_id().insert(key@, id as nat),
            final(self).id_to_key() == old(self).id_to_key().insert(id as nat, key@),
    {
        let ghost old_views = self.key_views();
        let ghost kv = key@;
        let id = self.first + self.keys.len();
        self.keys.push(key);
        proof {
            assert(self.key_views() =~= old_views.push(kv));
            assert(self.key_views().drop_last() =~= old_views);
            assert(self.key_to_id() =~= old(self).key_to_id().insert(kv, id as nat));
            assert(self.id_to_key() =~= old(self).id_to_key().insert(id as nat, kv));
        }
        id
    }

    /// The id of the most recent registration of `key`.
    pub fn lookup(&self, key: &K) -> (r: Option<usize>)
        requires
            self.wf(),
        ensures
            opt_nat(r) == self.key_to_id().get(key@),
    {
        let mut i = self.keys.len();
        while i > 0
            invariant
                i <= self.keys.len(),
                self.wf(),
                forall|j: int| i <= j < self.keys.len() ==> self.key_views()[j] != key@,
            decreases i,
        {
            i = i - 1;
            if self.keys[i].same_key(key) {
                proof {
                    lemma_last_position_found(self.key_views(), key@, i as int);
                }
                return Some(self.first + i);
            }
        }
        proof {
            lemma_last_position_absent(self.key_views(), key@);
        }
        None
    }

    /// The key that `id` was handed out to.
    pub fn key(&self, id: usize) -> (r: Option<&K>)
        requires
            self.wf(),
        ensures
            match r {
                Some(k) => self.id_to_key().contains_key(id as nat) && k@ == self.id_to_key()[id as nat],
                None => !self.id_to_key().contains_key(id as nat),
            },
    {
        if id >= self.first && id - self.first < self.keys.len() {
            Some(&self.keys[id - self.first])
        } else {
            None
        }
    }
}

} // verus!
