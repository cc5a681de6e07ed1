//! Ragdolls as the ragdoll editor edits them, and the symmetry rule: every
//! body and joint marked for symmetry gets a mirror image, kept in step
//! with it, and mirror images whose original is gone or no longer
//! symmetric are removed.
//!
//! Geometry (offsets, axes, limits) is the caller's: it is held in the
//! `props` of each element, and mirrored by functions the caller hands in.
use vstd::prelude::*;
use vstd::string::StringExecFns;
use crate::key_map::{lemma_distinct_position, lemma_position_entry, KeyMap};
use crate::ordered_map::key_position;
use crate::registry::RegistryKey;
use crate::saving::{DirtyAssets, UntypedAssetId};
use crate::actions::PushQueue;

verus! {

// ---------------------------------------------------------------- labels

/// `s` ends with `t`.
pub open spec fn has_suffix(s: Seq<char>, t: Seq<char>) -> bool {
    t.len() <= s.len() && s.subrange(s.len() - t.len(), s.len() as int) == t
}

/// `s` without the suffix `t`, or `s` itself where it does not end with `t`.
pub open spec fn without_suffix(s: Seq<char>, t: Seq<char>) -> Seq<char> {
    if has_suffix(s, t) {
        s.subrange(0, s.len() - t.len())
    } else {
        s
    }
}

/// Whether `s` ends with `t`.
pub fn ends_with(s: &String, t: &String) -> (b: bool)
    ensures
        b == has_suffix(s@, t@),
{
    let n = s.as_str().unicode_len();
    let m = t.as_str().unicode_len();
    if m > n {
        return false;
    }
    let mut i: usize = 0;
    while i < m
        invariant
            n == s@.len(),
            m == t@.len(),
            m <= n,
            i <= m,
            forall|k: int| 0 <= k < i ==> s@[n - m + k] == t@[k],
        decreases m - i,
    {
        if s.as_str().get_char(n - m + i) != t.as_str().get_char(i) {
            proof {
                assert(s@.subrange(n - m, n as int)[i as int] != t@[i as int]);
            }
            return false;
        }
        i = i + 1;
    }
    proof {
        assert(s@.subrange(n - m, n as int) =~= t@);
    }
    true
}

/// `s` without the suffix `t`, or a copy of `s` where it does not end with `t`.
pub fn strip_suffix_or_keep(s: &String, t: &String) -> (r: String)
    ensures
        r@ == without_suffix(s@, t@),
{
    if ends_with(s, t) {
        let n = s.as_str().unicode_len();
        let m = t.as_str().unicode_len();
        s.as_str().substring_char(0, n - m).to_owned()
    } else {
        s.clone()
    }
}

fn concat(a: &String, b: &String) -> (r: String)
    ensures
        r@ == a@ + b@,
{
    let mut r = a.clone();
    r.append(b.as_str());
    r
}

/// The suffixes that mark the two sides of a symmetric ragdoll.
#[derive(Debug, Clone)]
pub struct SymmetrySuffixes {
    pub original: String,
    pub mirror: String,
}

/// The label of an element that has a mirror image: it ends with the
/// original side's suffix, which is added where missing.
pub open spec fn original_side_label(label: Seq<char>, suffixes: SymmetrySuffixes) -> Seq<char> {
    without_suffix(label, suffixes.original@) + suffixes.original@
}

/// The label of the mirror image of an element labelled `label`: the
/// original side's suffix is replaced by the mirror side's.
pub open spec fn mirror_side_label(label: Seq<char>, suffixes: SymmetrySuffixes) -> Seq<char> {
    without_suffix(label, suffixes.original@) + suffixes.mirror@
}

/// A label that already ends with the original side's suffix keeps it.
pub proof fn law_original_side_label_is_stable(label: Seq<char>, suffixes: SymmetrySuffixes)
    ensures
        has_suffix(label, suffixes.original@) ==> original_side_label(label, suffixes) == label,
        has_suffix(original_side_label(label, suffixes), suffixes.original@),
        original_side_label(original_side_label(label, suffixes), suffixes) == original_side_label(
            label,
            suffixes,
        ),
        mirror_side_label(original_side_label(label, suffixes), suffixes) == mirror_side_label(
            label,
            suffixes,
        ),
{
    let o = suffixes.original@;
    let w = without_suffix(label, o);
    let l2 = w + o;
    assert(l2.subrange(l2.len() - o.len(), l2.len() as int) =~= o);
    assert(l2.subrange(0, l2.len() - o.len()) =~= w);
    if has_suffix(label, o) {
        assert(w + o =~= label);
    }
}

/// [`original_side_label`] of `label`.
pub fn make_original_side_label(label: &String, suffixes: &SymmetrySuffixes) -> (r: String)
    ensures
        r@ == original_side_label(label@, *suffixes),
{
    let base = strip_suffix_or_keep(label, &suffixes.original);
    concat(&base, &suffixes.original)
}

/// [`mirror_side_label`] of `label`.
pub fn make_mirror_side_label(label: &String, suffixes: &SymmetrySuffixes) -> (r: String)
    ensures
        r@ == mirror_side_label(label@, *suffixes),
{
    let base = strip_suffix_or_keep(label, &suffixes.original);
    concat(&base, &suffixes.mirror)
}

// ---------------------------------------------------------------- limits

/// A joint limit after its checkbox is set to `enabled`: switched off, it
/// is gone; switched on where there was none, it starts as `default`;
/// otherwise it is kept.
pub fn toggled_limit<L>(limit: Option<L>, enabled: bool, default: L) -> (r: Option<L>)
    ensures
        !enabled ==> r is None,
        enabled && limit is None ==> r == Some(default),
        enabled && limit is Some ==> r == limit,
{
    if !enabled {
        None
    } else {
        match limit {
            Some(l) => Some(l),
            None => Some(default),
        }
    }
}

// ------------------------------------------------------------------ ids

/// `id`, read as a uuid, carries the version (4) and variant bits of a
/// random uuid.
pub open spec fn is_random_uuid(id: u128) -> bool {
    &&& (id >> 76u128) & 0xfu128 == 4
    &&& (id >> 62u128) & 0x3u128 == 2
}

/// A fresh random id for a new ragdoll element: a version 4 uuid.
/// Calls `uuid::Uuid::new_v4` and reads it as a `u128`; what is claimed is
/// only the version and variant bits that every such uuid carries. The
/// call panics where the system offers no random numbers.
#[verifier::external_body]
fn new_element_id() -> (id: u128)
    ensures
        is_random_uuid(id),
{
    uuid::Uuid::new_v4().as_u128()
}

/// The ids below `c`.
pub open spec fn ids_below(c: nat) -> Set<u128> {
    Set::new(|x: u128| x < c)
}

proof fn lemma_ids_below_len(c: nat)
    requires
        c <= u128::MAX + 1,
    ensures
        ids_below(c).finite(),
        ids_below(c).len() == c,
    decreases c,
{
    if c == 0 {
        assert(ids_below(c) =~= Set::<u128>::empty());
    } else {
        let p = (c - 1) as nat;
        lemma_ids_below_len(p);
        assert(ids_below(c) =~= ids_below(p).insert(p as u128));
    }
}

/// A map whose keys include every id below `c` has at least `c` entries.
proof fn lemma_ids_below_fit<T>(m: KeyMap<u128, T>, c: nat)
    requires
        m.wf(),
        c <= u128::MAX + 1,
        forall|x: u128| x < c ==> m.view_map().contains_key(x),
    ensures
        c <= m.entries@.len(),
{
    broadcast use vstd::seq_lib::seq_to_set_is_finite;
    let ks = crate::ordered_map::key_views(m.entries@);
    lemma_ids_below_len(c);
    assert forall|x: u128| ids_below(c).contains(x) implies ks.to_set().contains(x) by {
        assert(m.view_map().contains_key(x));
        assert(key_position(m.entries@, x) is Some);
        lemma_position_entry(m.entries@, x);
        let j = key_position(m.entries@, x)->0;
        assert(ks[j] == x);
    }
    ks.lemma_cardinality_of_set();
    vstd::set_lib::lemma_len_subset(ids_below(c), ks.to_set());
}

/// The id a new element of `m` gets when `drawn` was drawn for it: `drawn`
/// itself where it is free, else the smallest id that `m` does not use.
/// Never an id that `m` uses.
pub fn unused_id<T>(drawn: u128, m: &KeyMap<u128, T>) -> (r: u128)
    requires
        m.wf(),
    ensures
        !m.view_map().contains_key(r),
        !m.view_map().contains_key(drawn) ==> r == drawn,
        m.view_map().contains_key(drawn) ==> forall|x: u128| x < r ==> m.view_map().contains_key(x),
{
    if !m.contains(&drawn) {
        return drawn;
    }
    let mut c: u128 = 0;
    while m.contains(&c)
        invariant
            m.wf(),
            c <= m.entries.len(),
            forall|x: u128| x < c ==> m.view_map().contains_key(x),
        decreases m.entries.len() - c,
    {
        proof {
            lemma_ids_below_fit(*m, (c + 1) as nat);
        }
        c = c + 1;
    }
    c
}

/// A fresh id for a new element of `m`: a random one, or, where the random
/// one is taken, the smallest free one.
fn fresh_id<T>(m: &KeyMap<u128, T>) -> (r: u128)
    requires
        m.wf(),
    ensures
        !m.view_map().contains_key(r),
{
    unused_id(new_element_id(), m)
}

/// Elements that may be the mirror image of another element of their kind.
pub trait Mirrorable {
    /// The id of the element this one mirrors, if it is a mirror image.
    spec fn source(&self) -> Option<u128>;

    fn source_of(&self) -> (r: Option<u128>)
        ensures
            r == self.source(),
    ;
}

// ----------------------------------------------------------- the model

/// A rigid body of a ragdoll.
#[derive(Debug, Clone)]
pub struct Body<P> {
    pub id: u128,
    pub label: String,
    pub use_symmetry: bool,
    /// For a mirror image, the body it mirrors.
    pub created_from: Option<u128>,
    pub colliders: Vec<u128>,
    /// Where the body sits and how it is simulated.
    pub props: P,
}

/// A collision shape attached to a body.
#[derive(Debug, Clone)]
pub struct Collider<P> {
    pub id: u128,
    pub label: String,
    /// For a mirror image, the collider it mirrors.
    pub created_from: Option<u128>,
    /// Shape, placement and collision layers.
    pub props: P,
}

/// A joint between two bodies.
#[derive(Debug, Clone)]
pub struct Joint<P> {
    pub id: u128,
    pub label: String,
    pub use_symmetry: bool,
    /// For a mirror image, the joint it mirrors.
    pub created_from: Option<u128>,
    pub body1: u128,
    pub body2: u128,
    /// Kind of joint, anchor, axes and limits.
    pub props: P,
}

impl<P> Mirrorable for Body<P> {
    open spec fn source(&self) -> Option<u128> {
        self.created_from
    }

    fn source_of(&self) -> (r: Option<u128>) {
        self.created_from
    }
}

impl<P> Mirrorable for Collider<P> {
    open spec fn source(&self) -> Option<u128> {
        self.created_from
    }

    fn source_of(&self) -> (r: Option<u128>) {
        self.created_from
    }
}

impl<P> Mirrorable for Joint<P> {
    open spec fn source(&self) -> Option<u128> {
        self.created_from
    }

    fn source_of(&self) -> (r: Option<u128>) {
        self.created_from
    }
}

/// A ragdoll: its bodies, colliders and joints by id, and its symmetry
/// suffixes.
#[derive(Debug, Clone)]
pub struct Ragdoll<B, C, J> {
    pub bodies: KeyMap<u128, Body<B>>,
    pub colliders: KeyMap<u128, Collider<C>>,
    pub joints: KeyMap<u128, Joint<J>>,
    pub suffixes: SymmetrySuffixes,
}

impl<B, C, J> Ragdoll<B, C, J> {
    pub open spec fn body_map(&self) -> Map<u128, Body<B>> {
        self.bodies.view_map()
    }

    pub open spec fn collider_map(&self) -> Map<u128, Collider<C>> {
        self.colliders.view_map()
    }

    pub open spec fn joint_map(&self) -> Map<u128, Joint<J>> {
        self.joints.view_map()
    }

    /// Each element is stored under its own id.
    pub open spec fn wf(&self) -> bool {
        &&& self.bodies.wf()
        &&& self.colliders.wf()
        &&& self.joints.wf()
        &&& forall|k: u128| #[trigger] self.body_map().contains_key(k) ==> self.body_map()[k].id == k
        &&& forall|k: u128| #[trigger] self.collider_map().contains_key(k) ==> self.collider_map()[k].id == k
        &&& forall|k: u128| #[trigger] self.joint_map().contains_key(k) ==> self.joint_map()[k].id == k
    }
}

// ------------------------------------------------------- reverse index

/// `rev` sends the source of mirror images in `m` to one of its mirror
/// images, and knows every source that has one.
pub open spec fn is_reverse_index<T: Mirrorable>(rev: Map<u128, u128>, m: Map<u128, T>) -> bool {
    &&& forall|src: u128| #[trigger] rev.contains_key(src) ==> m.contains_key(rev[src]) && m[rev[src]].source() == Some(src)
    &&& forall|x: u128| #[trigger] m.contains_key(x) && m[x].source() is Some ==> rev.contains_key(m[x].source()->0)
}

/// Which element each source's mirror image is.
pub fn reverse_index<T: Mirrorable>(m: &KeyMap<u128, T>) -> (rev: KeyMap<u128, u128>)
    requires
        m.wf(),
    ensures
        rev.wf(),
        is_reverse_index(rev.view_map(), m.view_map()),
{
    let mut rev: KeyMap<u128, u128> = KeyMap::new();
    let mut i: usize = 0;
    while i < m.entries.len()
        invariant
            m.wf(),
            rev.wf(),
            i <= m.entries.len(),
            forall|src: u128| #[trigger] rev.view_map().contains_key(src) ==> m.view_map().contains_key(rev.view_map()[src]) && m.view_map()[rev.view_map()[src]].source() == Some(src),
            forall|j: int| 0 <= j < i && (#[trigger] m.entries@[j]).1.source() is Some ==> rev.view_map().contains_key(m.entries@[j].1.source()->0),
        decreases m.entries.len() - i,
    {
        let ghost before = rev.view_map();
        match m.entries[i].1.source_of() {
            Some(src) => {
                let x = m.entries[i].0;
                proof {
                    lemma_distinct_position(m.entries@, i as int);
                }
                rev.insert(src, x);
            },
            None => {},
        }
        i = i + 1;
    }
    proof {
        assert forall|x: u128| #[trigger] m.view_map().contains_key(x) && m.view_map()[x].source() is Some implies rev.view_map().contains_key(m.view_map()[x].source()->0) by {
            lemma_position_entry(m.entries@, x);
            let j = key_position(m.entries@, x)->0;
            assert(m.entries@[j].1.source() is Some);
        }
    }
    rev
}

// ------------------------------------------------------------ mirroring

/// `m`, stored under `mid`, is a mirror image of collider `c`: a copy of
/// it that remembers where it came from.
pub open spec fn is_collider_mirror<C: Clone>(m: Collider<C>, c: Collider<C>, mid: u128) -> bool {
    &&& m.id == mid
    &&& m.label == c.label
    &&& m.created_from == Some(c.id)
    &&& cloned(c.props, m.props)
}

/// The colliders and their reverse index are consistent: every collider is
/// stored under its id, and the index knows a mirror image of each source.
pub open spec fn colliders_consistent<C>(rev: KeyMap<u128, u128>, colliders: KeyMap<u128, Collider<C>>) -> bool {
    &&& rev.wf()
    &&& colliders.wf()
    &&& forall|k: u128| #[trigger] colliders.view_map().contains_key(k) ==> colliders.view_map()[k].id == k
    &&& is_reverse_index(rev.view_map(), colliders.view_map())
}

/// Every mirror image among the colliders `cm` has an original there, and
/// carries its label.
pub open spec fn collider_labels_follow<C>(cm: Map<u128, Collider<C>>) -> bool {
    forall|y: u128| #[trigger] cm.contains_key(y) && cm[y].created_from is Some
        ==> cm.contains_key(cm[y].created_from->0) && cm[y].label == cm[cm[y].created_from->0].label
}

/// Every collider of `old` is in `now`, with the label it had.
pub open spec fn collider_labels_kept<C>(old: Map<u128, Collider<C>>, now: Map<u128, Collider<C>>) -> bool {
    forall|y: u128| #[trigger] old.contains_key(y) ==> now.contains_key(y) && now[y].label == old[y].label
}

/// Gives the collider `cid` a mirror image: the one it has, or a new one
/// under a fresh id, made a copy of it.
fn mirror_collider<C: Clone>(
    cid: u128,
    rev: &mut KeyMap<u128, u128>,
    colliders: &mut KeyMap<u128, Collider<C>>,
) -> (mid: u128)
    requires
        colliders_consistent(*old(rev), *old(colliders)),
        old(colliders).view_map().contains_key(cid),
        old(colliders).view_map()[cid].created_from != Some(cid),
    ensures
        colliders_consistent(*final(rev), *final(colliders)),
        final(rev).view_map() == old(rev).view_map().insert(cid, mid),
        old(colliders).view_map().contains_key(mid) ==> old(colliders).view_map()[mid].created_from == Some(cid),
        old(rev).view_map().contains_key(cid) ==> mid == old(rev).view_map()[cid],
        !old(rev).view_map().contains_key(cid) ==> !old(colliders).view_map().contains_key(mid),
        mid != cid,
        final(colliders).view_map() == old(colliders).view_map().insert(mid, final(colliders).view_map()[mid]),
        is_collider_mirror(final(colliders).view_map()[mid], old(colliders).view_map()[cid], mid),
        collider_labels_follow(old(colliders).view_map()) ==> collider_labels_follow(final(colliders).view_map())
            && collider_labels_kept(old(colliders).view_map(), final(colliders).view_map()),
{
    let mid = match rev.get(&cid) {
        Some(m) => *m,
        None => fresh_id(colliders),
    };
    let m = match colliders.get(&cid) {
        Some(orig) => Collider {
            id: mid,
            label: orig.label.clone(),
            created_from: Some(cid),
            props: orig.props.clone(),
        },
        None => {
            proof {
                assert(false);
            }
            return mid;
        },
    };
    rev.insert(cid, mid);
    colliders.insert(mid, m);
    proof {
        let cm = colliders.view_map();
        let rm = rev.view_map();
        assert(cm == old(colliders).view_map().insert(mid, cm[mid]));
        assert forall|src: u128| #[trigger] rm.contains_key(src) implies cm.contains_key(rm[src]) && cm[rm[src]].source() == Some(src) by {
            if src != cid {
                let x = old(rev).view_map()[src];
                assert(old(colliders).view_map()[x].source() == Some(src));
                assert(x != mid);
            }
        }
        assert forall|x: u128| #[trigger] cm.contains_key(x) && cm[x].source() is Some implies rm.contains_key(cm[x].source()->0) by {
            if x != mid {
                assert(old(colliders).view_map().contains_key(x));
            }
        }
        let o = old(colliders).view_map();
        if collider_labels_follow(o) {
            assert forall|y: u128| #[trigger] cm.contains_key(y) && cm[y].created_from is Some
                implies cm.contains_key(cm[y].created_from->0) && cm[y].label == cm[cm[y].created_from->0].label by {
                if y != mid {
                    assert(o.contains_key(y));
                    if cm[y].created_from->0 == mid {
                        assert(o.contains_key(mid));
                        assert(o[mid].created_from == Some(cid));
                    }
                }
            }
            assert forall|y: u128| #[trigger] o.contains_key(y) implies cm.contains_key(y) && cm[y].label == o[y].label by {
                if y == mid {
                    assert(o[mid].created_from == Some(cid));
                }
            }
        }
    }
    mid
}

/// `cs` lists mirror images of the colliders `cids` (as they were in
/// `old`), in `now`: each remembers its collider, and is a copy of it where
/// that collider is not a mirror image itself.
pub open spec fn mirrors_listed<C: Clone>(
    cs: Seq<u128>,
    cids: Seq<u128>,
    old: Map<u128, Collider<C>>,
    now: Map<u128, Collider<C>>,
) -> bool {
    &&& cs.len() == cids.len()
    &&& forall|k: int| 0 <= k < cs.len() ==> {
        &&& now.contains_key(#[trigger] cs[k])
        &&& now[cs[k]].id == cs[k]
        &&& now[cs[k]].created_from == Some(cids[k])
        &&& old[cids[k]].created_from is None ==> is_collider_mirror(now[cs[k]], old[cids[k]], cs[k])
    }
}

/// What mirroring a list of colliders may change: it adds mirror images and
/// rewrites existing ones, never an original collider, and no collider
/// changes what it is a mirror image of.
pub open spec fn only_mirrors_written<C>(
    old: Map<u128, Collider<C>>,
    now: Map<u128, Collider<C>>,
    written: Seq<u128>,
) -> bool {
    &&& forall|x: u128| old.contains_key(x) ==> #[trigger] now.contains_key(x)
    &&& forall|x: u128| #[trigger] now.contains_key(x) && !written.contains(x) ==> old.contains_key(x) && now[x] == old[x]
    &&& forall|k: int| 0 <= k < written.len() && old.contains_key(#[trigger] written[k]) ==> old[written[k]].created_from is Some
    &&& forall|x: u128| #[trigger] old.contains_key(x) ==> now[x].created_from == old[x].created_from
}

/// The colliders `cids` exist in `colliders`, and none is a mirror image of
/// itself.
pub open spec fn mirrorable_colliders<C>(cids: Seq<u128>, colliders: Map<u128, Collider<C>>) -> bool {
    forall|k: int| 0 <= k < cids.len() ==> colliders.contains_key(#[trigger] cids[k])
        && colliders[cids[k]].created_from != Some(cids[k])
}

/// Gives each collider of `cids` a mirror image, as [`mirror_collider`]
/// does, and lists them in order.
fn mirror_collider_list<C: Clone>(
    cids: &Vec<u128>,
    rev: &mut KeyMap<u128, u128>,
    colliders: &mut KeyMap<u128, Collider<C>>,
) -> (cs: Vec<u128>)
    requires
        colliders_consistent(*old(rev), *old(colliders)),
        mirrorable_colliders(cids@, old(colliders).view_map()),
    ensures
        colliders_consistent(*final(rev), *final(colliders)),
        mirrors_listed(cs@, cids@, old(colliders).view_map(), final(colliders).view_map()),
        only_mirrors_written(old(colliders).view_map(), final(colliders).view_map(), cs@),
        forall|src: u128| #[trigger] old(rev).view_map().contains_key(src) ==> final(rev).view_map().contains_key(src) && final(rev).view_map()[src] == old(rev).view_map()[src],
        forall|k: int| 0 <= k < cids.len() ==> final(rev).view_map().contains_key(#[trigger] cids@[k]) && final(rev).view_map()[cids@[k]] == cs@[k],
        collider_labels_follow(old(colliders).view_map()) ==> collider_labels_follow(final(colliders).view_map())
            && collider_labels_kept(old(colliders).view_map(), final(colliders).view_map()),
{
    let mut cs: Vec<u128> = Vec::new();
    let mut i: usize = 0;
    while i < cids.len()
        invariant
            i <= cids.len(),
            colliders_consistent(*rev, *colliders),
            mirrorable_colliders(cids@, old(colliders).view_map()),
            mirrors_listed(cs@, cids@.take(i as int), old(colliders).view_map(), colliders.view_map()),
            only_mirrors_written(old(colliders).view_map(), colliders.view_map(), cs@),
            forall|src: u128| #[trigger] old(rev).view_map().contains_key(src) ==> rev.view_map().contains_key(src) && rev.view_map()[src] == old(rev).view_map()[src],
            forall|k: int| 0 <= k < i ==> rev.view_map().contains_key(#[trigger] cids@[k]) && rev.view_map()[cids@[k]] == cs@[k],
            collider_labels_follow(old(colliders).view_map()) ==> collider_labels_follow(colliders.view_map())
                && collider_labels_kept(old(colliders).view_map(), colliders.view_map()),
        decreases cids.len() - i,
    {
        let cid = cids[i];
        let ghost before_c = colliders.view_map();
        let ghost before_r = rev.view_map();
        let ghost before_cs = cs@;
        let ghost o = old(colliders).view_map();
        proof {
            assert(o.contains_key(cids@[i as int]));
            assert(before_c.contains_key(cid));
            assert(before_c[cid].created_from == o[cid].created_from);
            // an original collider has not been written so far
            if o[cid].created_from is None {
                if before_cs.contains(cid) {
                    let k = choose|k: int| 0 <= k < before_cs.len() && before_cs[k] == cid;
                    assert(o[before_cs[k]].created_from is Some);
                }
                assert(before_c[cid] == o[cid]);
            }
        }
        let mid = mirror_collider(cid, rev, colliders);
        cs.push(mid);
        proof {
            let now = colliders.view_map();
            assert(cids@.take(i + 1) =~= cids@.take(i as int).push(cid));
            assert(before_c.contains_key(mid) ==> before_r.contains_key(cid) && before_r[cid] == mid);
            assert forall|k: int| 0 <= k < cs@.len() implies {
                &&& now.contains_key(#[trigger] cs@[k])
                &&& now[cs@[k]].id == cs@[k]
                &&& now[cs@[k]].created_from == Some(cids@.take(i + 1)[k])
                &&& o[cids@.take(i + 1)[k]].created_from is None ==> is_collider_mirror(now[cs@[k]], o[cids@.take(i + 1)[k]], cs@[k])
            } by {
                if k < i {
                    let c_k = cids@[k];
                    assert(cids@.take(i + 1)[k] == c_k);
                    assert(cids@.take(i as int)[k] == c_k);
                    if cs@[k] == mid {
                        // the same source, rewritten with the same copy
                        assert(before_r[c_k] == mid);
                        assert(before_c[mid].source() == Some(c_k));
                        assert(before_c[before_r[cid]].source() == Some(cid));
                    }
                }
            }
            assert forall|x: u128| #[trigger] now.contains_key(x) && !cs@.contains(x) implies o.contains_key(x) && now[x] == o[x] by {
                assert(x != mid) by {
                    assert(cs@[cs@.len() - 1] == mid);
                }
                if before_cs.contains(x) {
                    let k = choose|k: int| 0 <= k < before_cs.len() && before_cs[k] == x;
                    assert(cs@[k] == x);
                }
            }
            assert forall|k: int| 0 <= k < cs@.len() && o.contains_key(#[trigger] cs@[k]) implies o[cs@[k]].created_from is Some by {
                if k == i {
                    assert(before_c[mid].created_from == Some(cid));
                }
            }
            assert forall|x: u128| #[trigger] o.contains_key(x) implies now[x].created_from == o[x].created_from by {
                assert(before_c.contains_key(x));
            }
            assert forall|src: u128| #[trigger] old(rev).view_map().contains_key(src) implies rev.view_map().contains_key(src) && rev.view_map()[src] == old(rev).view_map()[src] by {
                if src == cid {
                    assert(before_r.contains_key(cid));
                }
            }
            assert forall|k: int| 0 <= k < i + 1 implies rev.view_map().contains_key(#[trigger] cids@[k]) && rev.view_map()[cids@[k]] == cs@[k] by {
                if k < i && cids@[k] == cid {
                    assert(before_r.contains_key(cid));
                }
            }
            if collider_labels_follow(o) {
                assert forall|y: u128| #[trigger] o.contains_key(y) implies now.contains_key(y) && now[y].label == o[y].label by {
                    assert(before_c.contains_key(y));
                }
            }
        }
        i = i + 1;
    }
    proof {
        assert(cids@.take(cids.len() as int) =~= cids@);
    }
    cs
}

/// `m`, stored under `mid`, is the mirror image of the body `b`: its label
/// moved to the mirror side, its properties mirrored by `f`, no symmetry
/// of its own, and it remembers `b`.
pub open spec fn is_body_mirror<B, F: Fn(&B) -> B>(
    m: Body<B>,
    b: Body<B>,
    mid: u128,
    suffixes: SymmetrySuffixes,
    f: F,
) -> bool {
    &&& m.id == mid
    &&& m.label@ == mirror_side_label(b.label@, suffixes)
    &&& !m.use_symmetry
    &&& m.created_from == Some(b.id)
    &&& f.ensures((&b.props,), m.props)
}

/// `n` is the body `b` with its label moved to the original side.
pub open spec fn is_original_side_body<B>(n: Body<B>, b: Body<B>, suffixes: SymmetrySuffixes) -> bool {
    &&& n.id == b.id
    &&& n.label@ == original_side_label(b.label@, suffixes)
    &&& n.use_symmetry == b.use_symmetry
    &&& n.created_from == b.created_from
    &&& n.colliders@ == b.colliders@
    &&& n.props == b.props
}

/// A body that is mirrored: symmetric, and not a mirror image itself.
pub open spec fn is_source_body<B>(b: Body<B>) -> bool {
    b.use_symmetry && b.created_from is None
}

/// The bodies and their reverse index are consistent.
pub open spec fn bodies_consistent<B>(rev: KeyMap<u128, u128>, bodies: KeyMap<u128, Body<B>>) -> bool {
    &&& rev.wf()
    &&& bodies.wf()
    &&& forall|k: u128| #[trigger] bodies.view_map().contains_key(k) ==> bodies.view_map()[k].id == k
    &&& is_reverse_index(rev.view_map(), bodies.view_map())
}

/// Mirrors the source body `bid`: its label moves to the original side,
/// and its mirror image (the one it has, or a new one under a fresh id)
/// becomes its mirrored copy, with mirror images of its colliders.
fn mirror_source_body<B, C: Clone, J, F: Fn(&B) -> B>(
    bid: u128,
    r: &mut Ragdoll<B, C, J>,
    rev_body: &mut KeyMap<u128, u128>,
    rev_coll: &mut KeyMap<u128, u128>,
    f: &F,
)
    requires
        old(r).wf(),
        bodies_consistent(*old(rev_body), old(r).bodies),
        colliders_consistent(*old(rev_coll), old(r).colliders),
        old(r).body_map().contains_key(bid),
        is_source_body(old(r).body_map()[bid]),
        mirrorable_colliders(old(r).body_map()[bid].colliders@, old(r).collider_map()),
        forall|p: &B| #[trigger] f.requires((p,)),
    ensures
        final(r).wf(),
        bodies_consistent(*final(rev_body), final(r).bodies),
        colliders_consistent(*final(rev_coll), final(r).colliders),
        final(r).suffixes == old(r).suffixes,
        final(r).joint_map() == old(r).joint_map(),
        ({
            let b = old(r).body_map()[bid];
            let mid = final(rev_body).view_map()[bid];
            let nb = final(r).body_map();
            &&& final(rev_body).view_map() == old(rev_body).view_map().insert(bid, mid)
            &&& old(rev_body).view_map().contains_key(bid) ==> mid == old(rev_body).view_map()[bid]
            &&& !old(rev_body).view_map().contains_key(bid) ==> !old(r).body_map().contains_key(mid)
            &&& mid != bid
            &&& nb == old(r).body_map().insert(bid, nb[bid]).insert(mid, nb[mid])
            &&& is_original_side_body(nb[bid], b, old(r).suffixes)
            &&& is_body_mirror(nb[mid], b, mid, old(r).suffixes, *f)
            &&& mirrors_listed(nb[mid].colliders@, b.colliders@, old(r).collider_map(), final(r).collider_map())
            &&& only_mirrors_written(old(r).collider_map(), final(r).collider_map(), nb[mid].colliders@)
            &&& forall|src: u128| #[trigger] old(rev_coll).view_map().contains_key(src) ==> final(rev_coll).view_map().contains_key(src) && final(rev_coll).view_map()[src] == old(rev_coll).view_map()[src]
            &&& forall|k: int| 0 <= k < b.colliders@.len() ==> final(rev_coll).view_map().contains_key(#[trigger] b.colliders@[k]) && final(rev_coll).view_map()[b.colliders@[k]] == nb[mid].colliders@[k]
        }),
        collider_labels_follow(old(r).collider_map()) ==> collider_labels_follow(final(r).collider_map())
            && collider_labels_kept(old(r).collider_map(), final(r).collider_map()),
{
    let mid = match rev_body.get(&bid) {
        Some(m) => *m,
        None => fresh_id(&r.bodies),
    };
    let ghost old_bodies = r.body_map();
    proof {
        if old(rev_body).view_map().contains_key(bid) {
            assert(old_bodies[mid].source() == Some(bid));
        }
    }
    let b = match r.bodies.remove(&bid) {
        Some(b) => b,
        None => {
            proof {
                assert(false);
            }
            return;
        },
    };
    let cs = mirror_collider_list(&b.colliders, rev_coll, &mut r.colliders);
    let label = make_original_side_label(&b.label, &r.suffixes);
    let mirror_label = make_mirror_side_label(&label, &r.suffixes);
    proof {
        law_original_side_label_is_stable(b.label@, r.suffixes);
    }
    let mirror_props = f(&b.props);
    let mirror = Body {
        id: mid,
        label: mirror_label,
        use_symmetry: false,
        created_from: Some(bid),
        colliders: cs,
        props: mirror_props,
    };
    let original = Body {
        id: b.id,
        label,
        use_symmetry: b.use_symmetry,
        created_from: b.created_from,
        colliders: b.colliders,
        props: b.props,
    };
    r.bodies.insert(bid, original);
    r.bodies.insert(mid, mirror);
    rev_body.insert(bid, mid);
    proof {
        let nb = r.body_map();
        let rm = rev_body.view_map();
        assert(nb =~= old_bodies.insert(bid, nb[bid]).insert(mid, nb[mid]));
        assert forall|k: u128| #[trigger] nb.contains_key(k) implies nb[k].id == k by {
            if k != bid && k != mid {
                assert(old_bodies.contains_key(k));
            }
        }
        assert forall|src: u128| #[trigger] rm.contains_key(src) implies nb.contains_key(rm[src]) && nb[rm[src]].source() == Some(src) by {
            if src != bid {
                let x = old(rev_body).view_map()[src];
                assert(old_bodies[x].source() == Some(src));
                assert(x != mid);
                assert(x != bid);
            }
        }
        assert forall|x: u128| #[trigger] nb.contains_key(x) && nb[x].source() is Some implies rm.contains_key(nb[x].source()->0) by {
            if x != mid && x != bid {
                assert(old_bodies.contains_key(x));
            }
        }
    }
}

/// The ids under which the elements of `m` are stored, in storage order.
fn id_list<T>(m: &KeyMap<u128, T>) -> (r: Vec<u128>)
    ensures
        r@.len() == m.entries@.len(),
        forall|i: int| 0 <= i < r@.len() ==> #[trigger] r@[i] == m.entries@[i].0,
{
    let mut r: Vec<u128> = Vec::new();
    let mut i: usize = 0;
    while i < m.entries.len()
        invariant
            i <= m.entries.len(),
            r@.len() == i,
            forall|j: int| 0 <= j < i ==> #[trigger] r@[j] == m.entries@[j].0,
        decreases m.entries.len() - i,
    {
        r.push(m.entries[i].0);
        i = i + 1;
    }
    r
}

/// The source body `b` (as it was) is mirrored in the bodies `nb` and
/// colliders `nc`: it keeps its place with its label moved to the original
/// side, and `rev` names its mirror image, with mirror images of each of
/// its colliders (as they were in `oc`).
pub open spec fn body_mirrored<B, C: Clone, F: Fn(&B) -> B>(
    b: Body<B>,
    suffixes: SymmetrySuffixes,
    f: F,
    oc: Map<u128, Collider<C>>,
    nb: Map<u128, Body<B>>,
    nc: Map<u128, Collider<C>>,
    rev: Map<u128, u128>,
    rev_c: Map<u128, u128>,
) -> bool {
    &&& nb.contains_key(b.id)
    &&& is_original_side_body(nb[b.id], b, suffixes)
    &&& rev.contains_key(b.id)
    &&& rev[b.id] != b.id
    &&& nb.contains_key(rev[b.id])
    &&& is_body_mirror(nb[rev[b.id]], b, rev[b.id], suffixes, f)
    &&& mirrors_listed(nb[rev[b.id]].colliders@, b.colliders@, oc, nc)
    &&& forall|k: int| 0 <= k < b.colliders@.len() ==> rev_c.contains_key(#[trigger] b.colliders@[k]) && rev_c[b.colliders@[k]] == nb[rev[b.id]].colliders@[k]
}

/// Every collider that a source body of `bodies` lists has a mirror image
/// already, by the reverse index `rev_coll`.
pub open spec fn listed_colliders_indexed<B>(bodies: Map<u128, Body<B>>, rev_coll: Map<u128, u128>) -> bool {
    forall|bid: u128, k: int|
        #![trigger bodies[bid].colliders@[k]]
        bodies.contains_key(bid) && is_source_body(bodies[bid]) && 0 <= k < bodies[bid].colliders@.len()
            ==> rev_coll.contains_key(bodies[bid].colliders@[k])
}

/// Every source body lists only colliders that exist and are not mirror
/// images of themselves.
pub open spec fn sources_list_mirrorable_colliders<B, C, J>(r: Ragdoll<B, C, J>) -> bool {
    forall|bid: u128| #[trigger] r.body_map().contains_key(bid) && is_source_body(r.body_map()[bid])
        ==> mirrorable_colliders(r.body_map()[bid].colliders@, r.collider_map())
}

/// Mirrors every source body, as [`mirror_source_body`] does, in the order
/// the bodies are stored.
fn mirror_bodies<B, C: Clone, J, F: Fn(&B) -> B>(
    r: &mut Ragdoll<B, C, J>,
    rev_body: &mut KeyMap<u128, u128>,
    rev_coll: &mut KeyMap<u128, u128>,
    f: &F,
)
    requires
        old(r).wf(),
        bodies_consistent(*old(rev_body), old(r).bodies),
        colliders_consistent(*old(rev_coll), old(r).colliders),
        sources_list_mirrorable_colliders(*old(r)),
        forall|p: &B| #[trigger] f.requires((p,)),
    ensures
        final(r).wf(),
        bodies_consistent(*final(rev_body), final(r).bodies),
        colliders_consistent(*final(rev_coll), final(r).colliders),
        final(r).suffixes == old(r).suffixes,
        final(r).joint_map() == old(r).joint_map(),
        forall|x: u128| #[trigger] final(r).body_map().contains_key(x) && is_source_body(final(r).body_map()[x]) ==> old(r).body_map().contains_key(x) && is_source_body(old(r).body_map()[x]),
        forall|x: u128| #[trigger] old(r).body_map().contains_key(x) && final(r).body_map()[x] != old(r).body_map()[x] ==> is_source_body(old(r).body_map()[x]) || (old(r).body_map()[x].created_from matches Some(s) && old(r).body_map().contains_key(s) && is_source_body(old(r).body_map()[s]) && final(rev_body).view_map().contains_key(s) && final(rev_body).view_map()[s] == x),
        forall|x: u128| #[trigger] final(r).body_map().contains_key(x) && !old(r).body_map().contains_key(x) ==> (final(r).body_map()[x].created_from matches Some(s) && old(r).body_map().contains_key(s) && is_source_body(old(r).body_map()[s]) && final(rev_body).view_map().contains_key(s) && final(rev_body).view_map()[s] == x),
        forall|s: u128| #[trigger] final(rev_body).view_map().contains_key(s) ==> old(rev_body).view_map().contains_key(s) || (old(r).body_map().contains_key(s) && is_source_body(old(r).body_map()[s])),
        forall|s: u128| #[trigger] old(rev_body).view_map().contains_key(s) ==> final(rev_body).view_map().contains_key(s) && final(rev_body).view_map()[s] == old(rev_body).view_map()[s],
        forall|s: u128| #[trigger] final(rev_body).view_map().contains_key(s) && !old(rev_body).view_map().contains_key(s)
            ==> !old(r).body_map().contains_key(final(rev_body).view_map()[s]),
        forall|x: u128| #[trigger] old(r).body_map().contains_key(x) ==> final(r).body_map().contains_key(x),
        forall|c: u128| #[trigger] old(r).collider_map().contains_key(c) ==> final(r).collider_map().contains_key(c)
            && final(r).collider_map()[c].created_from == old(r).collider_map()[c].created_from,
        forall|c: u128| #[trigger] old(r).collider_map().contains_key(c) && old(r).collider_map()[c].created_from is None
            ==> final(r).collider_map()[c] == old(r).collider_map()[c],
        listed_colliders_indexed(old(r).body_map(), old(rev_coll).view_map())
            ==> forall|c: u128| #[trigger] final(r).collider_map().contains_key(c) ==> old(r).collider_map().contains_key(c),
        forall|bid: u128|
            #[trigger] old(r).body_map().contains_key(bid) && is_source_body(old(r).body_map()[bid])
                ==> body_mirrored(
                old(r).body_map()[bid],
                old(r).suffixes,
                *f,
                old(r).collider_map(),
                final(r).body_map(),
                final(r).collider_map(),
                final(rev_body).view_map(),
                final(rev_coll).view_map(),
            ),
        collider_labels_follow(old(r).collider_map()) ==> collider_labels_follow(final(r).collider_map())
            && collider_labels_kept(old(r).collider_map(), final(r).collider_map()),
{
    let ids = id_list(&r.bodies);
    let ghost ob = r.body_map();
    let ghost oc = r.collider_map();
    let ghost sfx = r.suffixes;
    proof {
        assert forall|a: int, b: int| 0 <= a < b < ids@.len() implies ids@[a] != ids@[b] by {
            assert(ids@[a] == r.bodies.entries@[a].0);
            assert(ids@[b] == r.bodies.entries@[b].0);
        }
        assert forall|bid: u128| #[trigger] ob.contains_key(bid) implies ids@.contains(bid) by {
            lemma_position_entry(r.bodies.entries@, bid);
            let j = key_position(r.bodies.entries@, bid)->0;
            assert(ids@[j] == r.bodies.entries@[j].0);
        }
    }
    let mut i: usize = 0;
    while i < ids.len()
        invariant
            i <= ids.len(),
            r.wf(),
            bodies_consistent(*rev_body, r.bodies),
            colliders_consistent(*rev_coll, r.colliders),
            r.suffixes == sfx,
            sfx == old(r).suffixes,
            ob == old(r).body_map(),
            oc == old(r).collider_map(),
            forall|k: u128| #[trigger] ob.contains_key(k) ==> ob[k].id == k,
            r.joint_map() == old(r).joint_map(),
            forall|a: int, b: int| 0 <= a < b < ids@.len() ==> ids@[a] != ids@[b],
            forall|bid: u128| #[trigger] ob.contains_key(bid) ==> ids@.contains(bid),
            sources_list_mirrorable_colliders(*old(r)),
            forall|p: &B| #[trigger] f.requires((p,)),
            forall|x: u128| #[trigger] ob.contains_key(x) ==> r.body_map().contains_key(x),
            forall|c: u128| #[trigger] oc.contains_key(c) && oc[c].created_from is None ==> r.collider_map().contains_key(c) && r.collider_map()[c] == oc[c],
            forall|c: u128| #[trigger] oc.contains_key(c) ==> r.collider_map().contains_key(c) && r.collider_map()[c].created_from == oc[c].created_from,
            forall|s: u128| #[trigger] old(rev_coll).view_map().contains_key(s) ==> rev_coll.view_map().contains_key(s) && rev_coll.view_map()[s] == old(rev_coll).view_map()[s],
            is_reverse_index(old(rev_coll).view_map(), oc),
            listed_colliders_indexed(ob, old(rev_coll).view_map())
                ==> forall|c: u128| #[trigger] r.collider_map().contains_key(c) ==> oc.contains_key(c),
            forall|k: int| i <= k < ids@.len() && ob.contains_key(#[trigger] ids@[k]) && is_source_body(ob[ids@[k]]) ==> r.body_map()[ids@[k]] == ob[ids@[k]],
            forall|x: u128| #[trigger] r.body_map().contains_key(x) && is_source_body(r.body_map()[x]) ==> ob.contains_key(x) && r.body_map()[x] == ob[x] || (exists|k: int| 0 <= k < i && ids@[k] == x),
            forall|x: u128| #[trigger] r.body_map().contains_key(x) && is_source_body(r.body_map()[x]) ==> ob.contains_key(x) && is_source_body(ob[x]),
            forall|x: u128| #[trigger] ob.contains_key(x) && r.body_map()[x] != ob[x] ==> is_source_body(ob[x]) || (ob[x].created_from matches Some(s) && ob.contains_key(s) && is_source_body(ob[s]) && rev_body.view_map().contains_key(s) && rev_body.view_map()[s] == x),
            forall|x: u128| #[trigger] r.body_map().contains_key(x) && !ob.contains_key(x) ==> (r.body_map()[x].created_from matches Some(s) && ob.contains_key(s) && is_source_body(ob[s]) && rev_body.view_map().contains_key(s) && rev_body.view_map()[s] == x),
            forall|s: u128| #[trigger] rev_body.view_map().contains_key(s) ==> old(rev_body).view_map().contains_key(s) || (ob.contains_key(s) && is_source_body(ob[s])),
            forall|s: u128| #[trigger] old(rev_body).view_map().contains_key(s) ==> rev_body.view_map().contains_key(s) && rev_body.view_map()[s] == old(rev_body).view_map()[s],
            forall|s: u128| #[trigger] rev_body.view_map().contains_key(s) ==> old(rev_body).view_map().contains_key(s) || exists|k: int| 0 <= k < i && ids@[k] == s,
            forall|s: u128| #[trigger] rev_body.view_map().contains_key(s) && !old(rev_body).view_map().contains_key(s)
                ==> !ob.contains_key(rev_body.view_map()[s]),
            is_reverse_index(old(rev_body).view_map(), ob),
            forall|k: int| 0 <= k < i && ob.contains_key(#[trigger] ids@[k]) && is_source_body(ob[ids@[k]]) ==> body_mirrored(ob[ids@[k]], sfx, *f, oc, r.body_map(), r.collider_map(), rev_body.view_map(), rev_coll.view_map()),
            collider_labels_follow(oc) ==> collider_labels_follow(r.collider_map()) && collider_labels_kept(oc, r.collider_map()),
        decreases ids.len() - i,
    {
        let bid = ids[i];
        let is_source = match r.bodies.get(&bid) {
            Some(b) => b.use_symmetry && b.created_from.is_none(),
            None => false,
        };
        if is_source {
            let ghost nb0 = r.body_map();
            let ghost nc0 = r.collider_map();
            let ghost rb0 = rev_body.view_map();
            let ghost rc0 = rev_coll.view_map();
            proof {
                assert(nb0[bid] == ob[bid]) by {
                    if !(ob.contains_key(bid) && nb0[bid] == ob[bid]) {
                        let k = choose|k: int| 0 <= k < i && ids@[k] == bid;
                        assert(ids@[k as int] != ids@[i as int]);
                    }
                }
                assert(ob.contains_key(bid)) by {
                    if !ob.contains_key(bid) {
                        let k = choose|k: int| 0 <= k < i && ids@[k] == bid;
                        assert(ids@[k as int] != ids@[i as int]);
                    }
                }
                assert(mirrorable_colliders(ob[bid].colliders@, oc));
                assert forall|k: int| 0 <= k < nb0[bid].colliders@.len() implies nc0.contains_key(#[trigger] nb0[bid].colliders@[k])
                    && nc0[nb0[bid].colliders@[k]].created_from != Some(nb0[bid].colliders@[k]) by {
                    let c = ob[bid].colliders@[k];
                    assert(oc.contains_key(c));
                }
            }
            mirror_source_body(bid, r, rev_body, rev_coll, f);
            proof {
                let nb = r.body_map();
                let nc = r.collider_map();
                let mid = rev_body.view_map()[bid];
                let cs = nb[mid].colliders@;
                let rb = rev_body.view_map();
                let rc = rev_coll.view_map();
                assert forall|x: u128| #[trigger] ob.contains_key(x) && nb[x] != ob[x] implies is_source_body(ob[x]) || (ob[x].created_from matches Some(s) && ob.contains_key(s) && is_source_body(ob[s]) && rb.contains_key(s) && rb[s] == x) by {
                    if x == mid && x != bid {
                        if rb0.contains_key(bid) {
                            assert(nb0[mid].source() == Some(bid));
                            if nb0[mid] == ob[mid] {
                                assert(ob[mid].created_from == Some(bid));
                            } else {
                                let s0 = ob[mid].created_from->0;
                                assert(rb0[s0] == mid);
                                assert(nb0[rb0[s0]].source() == Some(s0));
                            }
                        } else {
                            assert(!nb0.contains_key(mid));
                        }
                    } else if x != bid {
                        assert(nb[x] == nb0[x]);
                        if nb0[x] != ob[x] && !is_source_body(ob[x]) {
                            let s0 = ob[x].created_from->0;
                            assert(rb0.contains_key(s0) && rb0[s0] == x);
                            if s0 == bid {
                                assert(rb[s0] == x);
                            }
                        }
                    }
                }
                assert forall|x: u128| #[trigger] nb.contains_key(x) && !ob.contains_key(x) implies (nb[x].created_from matches Some(s) && ob.contains_key(s) && is_source_body(ob[s]) && rb.contains_key(s) && rb[s] == x) by {
                    if x != mid {
                        assert(x != bid);
                        assert(nb0.contains_key(x));
                        let s0 = nb0[x].created_from->0;
                        assert(rb0[s0] == x);
                        if s0 == bid {
                            assert(rb0.contains_key(bid));
                        }
                    }
                }
                assert forall|s0: u128| #[trigger] old(rev_body).view_map().contains_key(s0) implies rb.contains_key(s0) && rb[s0] == old(rev_body).view_map()[s0] by {
                    assert(rb0.contains_key(s0));
                }
                assert forall|s0: u128| #[trigger] rb.contains_key(s0) implies old(rev_body).view_map().contains_key(s0) || exists|k: int| 0 <= k < i + 1 && ids@[k] == s0 by {
                    if s0 == bid {
                        assert(ids@[i as int] == s0);
                    } else {
                        assert(rb0.contains_key(s0));
                    }
                }
                assert forall|s0: u128| #[trigger] rb.contains_key(s0) && !old(rev_body).view_map().contains_key(s0) implies !ob.contains_key(rb[s0]) by {
                    if s0 == bid {
                        if rb0.contains_key(bid) {
                            let k = choose|k: int| 0 <= k < i && ids@[k] == bid;
                            assert(ids@[k] != ids@[i as int]);
                        }
                        assert(!nb0.contains_key(mid));
                    } else {
                        assert(rb0.contains_key(s0));
                    }
                }
                // originals among the colliders are untouched
                assert forall|c: u128| #[trigger] oc.contains_key(c) && oc[c].created_from is None implies nc.contains_key(c) && nc[c] == oc[c] by {
                    assert(nc0.contains_key(c) && nc0[c] == oc[c]);
                    assert(nc.contains_key(c));
                    if cs.contains(c) {
                        let k = choose|k: int| 0 <= k < cs.len() && cs[k] == c;
                        assert(nc0[cs[k]].created_from is Some);
                    } else {
                        assert(nc[c] == nc0[c]);
                    }
                }
                assert(collider_labels_follow(oc) ==> collider_labels_follow(nc) && collider_labels_kept(oc, nc)) by {
                    if collider_labels_follow(oc) {
                        assert forall|y: u128| #[trigger] oc.contains_key(y) implies nc.contains_key(y) && nc[y].label == oc[y].label by {
                            assert(nc0.contains_key(y));
                        }
                    }
                }
                assert forall|c: u128| #[trigger] oc.contains_key(c) implies nc.contains_key(c) && nc[c].created_from == oc[c].created_from by {
                    assert(nc0.contains_key(c));
                }
                assert forall|s0: u128| #[trigger] old(rev_coll).view_map().contains_key(s0) implies rc.contains_key(s0) && rc[s0] == old(rev_coll).view_map()[s0] by {
                    assert(rc0.contains_key(s0));
                }
                if listed_colliders_indexed(ob, old(rev_coll).view_map()) {
                    let orc = old(rev_coll).view_map();
                    let cids = ob[bid].colliders@;
                    assert forall|c: u128| #[trigger] nc.contains_key(c) implies oc.contains_key(c) by {
                        if !nc0.contains_key(c) {
                            assert(cs.contains(c));
                            let k = choose|k: int| 0 <= k < cs.len() && cs[k] == c;
                            assert(ob[bid].colliders@[k] == cids[k]);
                            assert(orc.contains_key(cids[k]));
                            assert(rc0.contains_key(cids[k]) && rc0[cids[k]] == orc[cids[k]]);
                            assert(rc[cids[k]] == cs[k]);
                            assert(oc.contains_key(orc[cids[k]]));
                        }
                    }
                }
                assert forall|x: u128| #[trigger] ob.contains_key(x) implies nb.contains_key(x) by {
                    assert(nb0.contains_key(x));
                }
                assert forall|k: int| i + 1 <= k < ids@.len() && ob.contains_key(#[trigger] ids@[k]) && is_source_body(ob[ids@[k]]) implies nb[ids@[k]] == ob[ids@[k]] by {
                    let x = ids@[k];
                    assert(x != bid);
                    assert(nb0[x] == ob[x]);
                    if x == mid {
                        if rb0.contains_key(bid) {
                            assert(nb0[mid].source() == Some(bid));
                        } else {
                            assert(!nb0.contains_key(mid));
                        }
                    }
                }
                assert forall|x: u128| #[trigger] nb.contains_key(x) && is_source_body(nb[x]) implies ob.contains_key(x) && nb[x] == ob[x] || (exists|k: int| 0 <= k < i + 1 && ids@[k] == x) by {
                    if x == bid {
                        assert(ids@[i as int] == x);
                    } else if x != mid {
                        assert(nb0.contains_key(x) && nb0[x] == nb[x]);
                        if !(ob.contains_key(x) && nb0[x] == ob[x]) {
                            let k = choose|k: int| 0 <= k < i && ids@[k] == x;
                            assert(ids@[k] == x);
                        }
                    }
                }
                assert forall|k: int| 0 <= k < i + 1 && ob.contains_key(#[trigger] ids@[k]) && is_source_body(ob[ids@[k]]) implies body_mirrored(ob[ids@[k]], sfx, *f, oc, nb, nc, rb, rc) by {
                    if k < i {
                        let x = ids@[k];
                        let b = ob[x];
                        assert(body_mirrored(b, sfx, *f, oc, nb0, nc0, rb0, rc0));
                        let m = rb0[x];
                        assert(x != bid);
                        assert(rb[x] == m);
                        assert(nb0[m].source() == Some(x));
                        assert(m != bid) by {
                            assert(nb0[bid].created_from is None);
                        }
                        assert(m != mid) by {
                            if rb0.contains_key(bid) {
                                assert(nb0[rb0[bid]].source() == Some(bid));
                            } else {
                                assert(!nb0.contains_key(mid));
                            }
                        }
                        assert(x != mid) by {
                            assert(nb0[x].created_from is None);
                            if rb0.contains_key(bid) {
                                assert(nb0[rb0[bid]].source() == Some(bid));
                            } else {
                                assert(!nb0.contains_key(mid));
                            }
                        }
                        assert(nb[x] == nb0[x]);
                        assert(nb[m] == nb0[m]);
                        let cs0 = nb0[m].colliders@;
                        assert forall|j: int| 0 <= j < cs0.len() implies {
                            &&& nc.contains_key(#[trigger] cs0[j])
                            &&& nc[cs0[j]].id == cs0[j]
                            &&& nc[cs0[j]].created_from == Some(b.colliders@[j])
                            &&& oc[b.colliders@[j]].created_from is None ==> is_collider_mirror(nc[cs0[j]], oc[b.colliders@[j]], cs0[j])
                        } by {
                            let y = cs0[j];
                            assert(nc0.contains_key(y));
                            let c1 = b.colliders@[j];
                            assert(rc0[c1] == y);
                            if cs.contains(y) {
                                let j2 = choose|j2: int| 0 <= j2 < cs.len() && cs[j2] == y;
                                let c2 = ob[bid].colliders@[j2];
                                assert(rc[c2] == y);
                                assert(nc[y].source() == Some(c2));
                                assert(nc0[y].source() == Some(c1));
                                assert(c1 == c2);
                                if oc[c1].created_from is None {
                                    assert(oc.contains_key(c1));
                                    assert(nc0[c1] == oc[c1]);
                                }
                            }
                        }
                        assert forall|j: int| 0 <= j < b.colliders@.len() implies rc.contains_key(#[trigger] b.colliders@[j]) && rc[b.colliders@[j]] == nb[m].colliders@[j] by {
                            assert(rc0.contains_key(b.colliders@[j]));
                        }
                    } else {
                        assert(ids@[k] == bid);

                    }
                }
            }
        }
        i = i + 1;
    }
    proof {
        assert forall|bid: u128| #[trigger] ob.contains_key(bid) && is_source_body(ob[bid]) implies body_mirrored(ob[bid], sfx, *f, oc, r.body_map(), r.collider_map(), rev_body.view_map(), rev_coll.view_map()) by {
            let k = choose|k: int| 0 <= k < ids@.len() && ids@[k] == bid;
            assert(ob.contains_key(ids@[k]));
        }
    }
}

/// Where a body reference of a mirrored joint points: to the mirror image
/// of the body, where it has one.
pub open spec fn remapped(rev: Map<u128, u128>, b: u128) -> u128 {
    if rev.contains_key(b) {
        rev[b]
    } else {
        b
    }
}

fn remap(rev: &KeyMap<u128, u128>, b: u128) -> (r: u128)
    requires
        rev.wf(),
    ensures
        r == remapped(rev.view_map(), b),
{
    match rev.get(&b) {
        Some(m) => *m,
        None => b,
    }
}

/// A joint that is mirrored: symmetric, and not a mirror image itself.
pub open spec fn is_source_joint<J>(j: Joint<J>) -> bool {
    j.use_symmetry && j.created_from is None
}

/// `m`, stored under `mid`, is the mirror image of the joint `j`: its
/// label moved to the mirror side, joining the mirror images of its bodies
/// (per `rev_body`), its properties mirrored by `g`, no symmetry of its own,
/// and it remembers `j`.
pub open spec fn is_joint_mirror<J, G: Fn(&J) -> J>(
    m: Joint<J>,
    j: Joint<J>,
    mid: u128,
    suffixes: SymmetrySuffixes,
    rev_body: Map<u128, u128>,
    g: G,
) -> bool {
    &&& m.id == mid
    &&& m.label@ == mirror_side_label(j.label@, suffixes)
    &&& !m.use_symmetry
    &&& m.created_from == Some(j.id)
    &&& m.body1 == remapped(rev_body, j.body1)
    &&& m.body2 == remapped(rev_body, j.body2)
    &&& g.ensures((&j.props,), m.props)
}

/// `n` is the joint `j` with its label moved to the original side.
pub open spec fn is_original_side_joint<J>(n: Joint<J>, j: Joint<J>, suffixes: SymmetrySuffixes) -> bool {
    &&& n.id == j.id
    &&& n.label@ == original_side_label(j.label@, suffixes)
    &&& n.use_symmetry == j.use_symmetry
    &&& n.created_from == j.created_from
    &&& n.body1 == j.body1
    &&& n.body2 == j.body2
    &&& n.props == j.props
}

/// The joints and their reverse index are consistent.
pub open spec fn joints_consistent<J>(rev: KeyMap<u128, u128>, joints: KeyMap<u128, Joint<J>>) -> bool {
    &&& rev.wf()
    &&& joints.wf()
    &&& forall|k: u128| #[trigger] joints.view_map().contains_key(k) ==> joints.view_map()[k].id == k
    &&& is_reverse_index(rev.view_map(), joints.view_map())
}

/// Mirrors the source joint `jid` as [`mirror_source_body`] mirrors a body;
/// the mirror image joins the mirror images of the joint's bodies.
fn mirror_source_joint<J, G: Fn(&J) -> J>(
    jid: u128,
    joints: &mut KeyMap<u128, Joint<J>>,
    rev_joint: &mut KeyMap<u128, u128>,
    rev_body: &KeyMap<u128, u128>,
    suffixes: &SymmetrySuffixes,
    g: &G,
)
    requires
        joints_consistent(*old(rev_joint), *old(joints)),
        rev_body.wf(),
        old(joints).view_map().contains_key(jid),
        is_source_joint(old(joints).view_map()[jid]),
        forall|p: &J| #[trigger] g.requires((p,)),
    ensures
        joints_consistent(*final(rev_joint), *final(joints)),
        ({
            let j = old(joints).view_map()[jid];
            let mid = final(rev_joint).view_map()[jid];
            let nj = final(joints).view_map();
            &&& final(rev_joint).view_map() == old(rev_joint).view_map().insert(jid, mid)
            &&& old(rev_joint).view_map().contains_key(jid) ==> mid == old(rev_joint).view_map()[jid]
            &&& !old(rev_joint).view_map().contains_key(jid) ==> !old(joints).view_map().contains_key(mid)
            &&& mid != jid
            &&& nj == old(joints).view_map().insert(jid, nj[jid]).insert(mid, nj[mid])
            &&& is_original_side_joint(nj[jid], j, *suffixes)
            &&& is_joint_mirror(nj[mid], j, mid, *suffixes, rev_body.view_map(), *g)
        }),
{
    let mid = match rev_joint.get(&jid) {
        Some(m) => *m,
        None => fresh_id(joints),
    };
    let ghost oj = joints.view_map();
    proof {
        if old(rev_joint).view_map().contains_key(jid) {
            assert(oj[mid].source() == Some(jid));
        }
    }
    let j = match joints.remove(&jid) {
        Some(j) => j,
        None => {
            proof {
                assert(false);
            }
            return;
        },
    };
    let label = make_original_side_label(&j.label, suffixes);
    let mirror_label = make_mirror_side_label(&label, suffixes);
    proof {
        law_original_side_label_is_stable(j.label@, *suffixes);
    }
    let mirror_props = g(&j.props);
    let mirror = Joint {
        id: mid,
        label: mirror_label,
        use_symmetry: false,
        created_from: Some(jid),
        body1: remap(rev_body, j.body1),
        body2: remap(rev_body, j.body2),
        props: mirror_props,
    };
    let original = Joint {
        id: j.id,
        label,
        use_symmetry: j.use_symmetry,
        created_from: j.created_from,
        body1: j.body1,
        body2: j.body2,
        props: j.props,
    };
    joints.insert(jid, original);
    joints.insert(mid, mirror);
    rev_joint.insert(jid, mid);
    proof {
        let nj = joints.view_map();
        let rm = rev_joint.view_map();
        assert(nj =~= oj.insert(jid, nj[jid]).insert(mid, nj[mid]));
        assert forall|k: u128| #[trigger] nj.contains_key(k) implies nj[k].id == k by {
            if k != jid && k != mid {
                assert(oj.contains_key(k));
            }
        }
        assert forall|src: u128| #[trigger] rm.contains_key(src) implies nj.contains_key(rm[src]) && nj[rm[src]].source() == Some(src) by {
            if src != jid {
                let x = old(rev_joint).view_map()[src];
                assert(oj[x].source() == Some(src));
                assert(x != mid);
                assert(x != jid);
            }
        }
        assert forall|x: u128| #[trigger] nj.contains_key(x) && nj[x].source() is Some implies rm.contains_key(nj[x].source()->0) by {
            if x != mid && x != jid {
                assert(oj.contains_key(x));
            }
        }
    }
}

/// The source joint `j` (as it was) is mirrored in the joints `nj`.
pub open spec fn joint_mirrored<J, G: Fn(&J) -> J>(
    j: Joint<J>,
    suffixes: SymmetrySuffixes,
    g: G,
    rev_body: Map<u128, u128>,
    nj: Map<u128, Joint<J>>,
    rev: Map<u128, u128>,
) -> bool {
    &&& nj.contains_key(j.id)
    &&& is_original_side_joint(nj[j.id], j, suffixes)
    &&& rev.contains_key(j.id)
    &&& rev[j.id] != j.id
    &&& nj.contains_key(rev[j.id])
    &&& is_joint_mirror(nj[rev[j.id]], j, rev[j.id], suffixes, rev_body, g)
}

/// Mirrors every source joint, in the order the joints are stored.
fn mirror_joints<J, G: Fn(&J) -> J>(
    joints: &mut KeyMap<u128, Joint<J>>,
    rev_joint: &mut KeyMap<u128, u128>,
    rev_body: &KeyMap<u128, u128>,
    suffixes: &SymmetrySuffixes,
    g: &G,
)
    requires
        joints_consistent(*old(rev_joint), *old(joints)),
        rev_body.wf(),
        forall|p: &J| #[trigger] g.requires((p,)),
    ensures
        joints_consistent(*final(rev_joint), *final(joints)),
        forall|x: u128| #[trigger] old(joints).view_map().contains_key(x) && final(joints).view_map()[x] != old(joints).view_map()[x] ==> is_source_joint(old(joints).view_map()[x]) || (old(joints).view_map()[x].created_from matches Some(s) && old(joints).view_map().contains_key(s) && is_source_joint(old(joints).view_map()[s]) && final(rev_joint).view_map().contains_key(s) && final(rev_joint).view_map()[s] == x),
        forall|x: u128| #[trigger] final(joints).view_map().contains_key(x) && !old(joints).view_map().contains_key(x) ==> (final(joints).view_map()[x].created_from matches Some(s) && old(joints).view_map().contains_key(s) && is_source_joint(old(joints).view_map()[s]) && final(rev_joint).view_map().contains_key(s) && final(rev_joint).view_map()[s] == x),
        forall|x: u128| #[trigger] old(joints).view_map().contains_key(x) ==> final(joints).view_map().contains_key(x),
        forall|jid: u128|
            #[trigger] old(joints).view_map().contains_key(jid) && is_source_joint(old(joints).view_map()[jid])
                ==> joint_mirrored(old(joints).view_map()[jid], *suffixes, *g, rev_body.view_map(), final(joints).view_map(), final(rev_joint).view_map()),
        forall|s: u128| #[trigger] old(rev_joint).view_map().contains_key(s) ==> final(rev_joint).view_map().contains_key(s) && final(rev_joint).view_map()[s] == old(rev_joint).view_map()[s],
        forall|s: u128| #[trigger] final(rev_joint).view_map().contains_key(s) && !old(rev_joint).view_map().contains_key(s)
            ==> !old(joints).view_map().contains_key(final(rev_joint).view_map()[s]),
{
    let ids = id_list(joints);
    let ghost oj = joints.view_map();
    proof {
        assert forall|a: int, b: int| 0 <= a < b < ids@.len() implies ids@[a] != ids@[b] by {
            assert(ids@[a] == joints.entries@[a].0);
            assert(ids@[b] == joints.entries@[b].0);
        }
        assert forall|jid: u128| #[trigger] oj.contains_key(jid) implies ids@.contains(jid) by {
            lemma_position_entry(joints.entries@, jid);
            let k = key_position(joints.entries@, jid)->0;
            assert(ids@[k] == joints.entries@[k].0);
        }
    }
    let mut i: usize = 0;
    while i < ids.len()
        invariant
            i <= ids.len(),
            joints_consistent(*rev_joint, *joints),
            rev_body.wf(),
            oj == old(joints).view_map(),
            forall|k: u128| #[trigger] oj.contains_key(k) ==> oj[k].id == k,
            forall|a: int, b: int| 0 <= a < b < ids@.len() ==> ids@[a] != ids@[b],
            forall|jid: u128| #[trigger] oj.contains_key(jid) ==> ids@.contains(jid),
            forall|p: &J| #[trigger] g.requires((p,)),
            forall|x: u128| #[trigger] oj.contains_key(x) ==> joints.view_map().contains_key(x),
            forall|s: u128| #[trigger] old(rev_joint).view_map().contains_key(s) ==> rev_joint.view_map().contains_key(s) && rev_joint.view_map()[s] == old(rev_joint).view_map()[s],
            forall|s: u128| #[trigger] rev_joint.view_map().contains_key(s) ==> old(rev_joint).view_map().contains_key(s) || exists|k: int| 0 <= k < i && ids@[k] == s,
            forall|s: u128| #[trigger] rev_joint.view_map().contains_key(s) && !old(rev_joint).view_map().contains_key(s)
                ==> !oj.contains_key(rev_joint.view_map()[s]),
            forall|k: int| i <= k < ids@.len() && oj.contains_key(#[trigger] ids@[k]) && is_source_joint(oj[ids@[k]]) ==> joints.view_map()[ids@[k]] == oj[ids@[k]],
            forall|x: u128| #[trigger] joints.view_map().contains_key(x) && is_source_joint(joints.view_map()[x]) ==> oj.contains_key(x) && joints.view_map()[x] == oj[x] || (exists|k: int| 0 <= k < i && ids@[k] == x),
            forall|x: u128| #[trigger] oj.contains_key(x) && joints.view_map()[x] != oj[x] ==> is_source_joint(oj[x]) || (oj[x].created_from matches Some(s) && oj.contains_key(s) && is_source_joint(oj[s]) && rev_joint.view_map().contains_key(s) && rev_joint.view_map()[s] == x),
            forall|x: u128| #[trigger] joints.view_map().contains_key(x) && !oj.contains_key(x) ==> (joints.view_map()[x].created_from matches Some(s) && oj.contains_key(s) && is_source_joint(oj[s]) && rev_joint.view_map().contains_key(s) && rev_joint.view_map()[s] == x),
            forall|k: int| 0 <= k < i && oj.contains_key(#[trigger] ids@[k]) && is_source_joint(oj[ids@[k]]) ==> joint_mirrored(oj[ids@[k]], *suffixes, *g, rev_body.view_map(), joints.view_map(), rev_joint.view_map()),
        decreases ids.len() - i,
    {
        let jid = ids[i];
        let is_source = match joints.get(&jid) {
            Some(j) => j.use_symmetry && j.created_from.is_none(),
            None => false,
        };
        if is_source {
            let ghost nj0 = joints.view_map();
            let ghost rj0 = rev_joint.view_map();
            proof {
                assert(nj0[jid] == oj[jid]) by {
                    if !(oj.contains_key(jid) && nj0[jid] == oj[jid]) {
                        let k = choose|k: int| 0 <= k < i && ids@[k] == jid;
                        assert(ids@[k as int] != ids@[i as int]);
                    }
                }
            }
            mirror_source_joint(jid, joints, rev_joint, rev_body, suffixes, g);
            proof {
                let nj = joints.view_map();
                let mid = rev_joint.view_map()[jid];
                let rj = rev_joint.view_map();
                assert forall|x: u128| #[trigger] oj.contains_key(x) && nj[x] != oj[x] implies is_source_joint(oj[x]) || (oj[x].created_from matches Some(s) && oj.contains_key(s) && is_source_joint(oj[s]) && rj.contains_key(s) && rj[s] == x) by {
                    if x == mid && x != jid {
                        if rj0.contains_key(jid) {
                            assert(nj0[mid].source() == Some(jid));
                            if nj0[mid] == oj[mid] {
                                assert(oj[mid].created_from == Some(jid));
                            } else {
                                let s0 = oj[mid].created_from->0;
                                assert(rj0[s0] == mid);
                                assert(nj0[rj0[s0]].source() == Some(s0));
                            }
                        } else {
                            assert(!nj0.contains_key(mid));
                        }
                    } else if x != jid {
                        assert(nj[x] == nj0[x]);
                        if nj0[x] != oj[x] && !is_source_joint(oj[x]) {
                            let s0 = oj[x].created_from->0;
                            assert(rj0.contains_key(s0) && rj0[s0] == x);
                            if s0 == jid {
                                assert(rj[s0] == x);
                            }
                        }
                    }
                }
                assert forall|x: u128| #[trigger] nj.contains_key(x) && !oj.contains_key(x) implies (nj[x].created_from matches Some(s) && oj.contains_key(s) && is_source_joint(oj[s]) && rj.contains_key(s) && rj[s] == x) by {
                    if x != mid {
                        assert(x != jid);
                        assert(nj0.contains_key(x));
                        let s0 = nj0[x].created_from->0;
                        assert(rj0[s0] == x);
                        if s0 == jid {
                            assert(rj0.contains_key(jid));
                        }
                    }
                }
                assert forall|x: u128| #[trigger] oj.contains_key(x) implies nj.contains_key(x) by {
                    assert(nj0.contains_key(x));
                }
                assert forall|s0: u128| #[trigger] old(rev_joint).view_map().contains_key(s0) implies rj.contains_key(s0) && rj[s0] == old(rev_joint).view_map()[s0] by {
                    assert(rj0.contains_key(s0));
                }
                assert forall|s0: u128| #[trigger] rj.contains_key(s0) implies old(rev_joint).view_map().contains_key(s0) || exists|k: int| 0 <= k < i + 1 && ids@[k] == s0 by {
                    if s0 == jid {
                        assert(ids@[i as int] == s0);
                    } else {
                        assert(rj0.contains_key(s0));
                    }
                }
                assert forall|s0: u128| #[trigger] rj.contains_key(s0) && !old(rev_joint).view_map().contains_key(s0) implies !oj.contains_key(rj[s0]) by {
                    if s0 == jid {
                        if rj0.contains_key(jid) {
                            let k = choose|k: int| 0 <= k < i && ids@[k] == jid;
                            assert(ids@[k] != ids@[i as int]);
                        }
                        assert(!nj0.contains_key(mid));
                    } else {
                        assert(rj0.contains_key(s0));
                    }
                }
                assert forall|k: int| i + 1 <= k < ids@.len() && oj.contains_key(#[trigger] ids@[k]) && is_source_joint(oj[ids@[k]]) implies nj[ids@[k]] == oj[ids@[k]] by {
                    let x = ids@[k];
                    assert(x != jid);
                    assert(nj0[x] == oj[x]);
                    if x == mid {
                        if rj0.contains_key(jid) {
                            assert(nj0[mid].source() == Some(jid));
                        } else {
                            assert(!nj0.contains_key(mid));
                        }
                    }
                }
                assert forall|x: u128| #[trigger] nj.contains_key(x) && is_source_joint(nj[x]) implies oj.contains_key(x) && nj[x] == oj[x] || (exists|k: int| 0 <= k < i + 1 && ids@[k] == x) by {
                    if x == jid {
                        assert(ids@[i as int] == x);
                    } else if x != mid {
                        assert(nj0.contains_key(x) && nj0[x] == nj[x]);
                        if !(oj.contains_key(x) && nj0[x] == oj[x]) {
                            let k = choose|k: int| 0 <= k < i && ids@[k] == x;
                            assert(ids@[k] == x);
                        }
                    }
                }
                assert forall|k: int| 0 <= k < i + 1 && oj.contains_key(#[trigger] ids@[k]) && is_source_joint(oj[ids@[k]]) implies joint_mirrored(oj[ids@[k]], *suffixes, *g, rev_body.view_map(), nj, rj) by {
                    if k < i {
                        let x = ids@[k];
                        let m = rj0[x];
                        assert(x != jid);
                        assert(nj0[m].source() == Some(x));
                        assert(m != jid) by {
                            assert(nj0[jid].created_from is None);
                        }
                        assert(m != mid && x != mid) by {
                            assert(nj0[x].created_from is None);
                            if rj0.contains_key(jid) {
                                assert(nj0[rj0[jid]].source() == Some(jid));
                            } else {
                                assert(!nj0.contains_key(mid));
                            }
                        }
                        assert(nj[x] == nj0[x]);
                        assert(nj[m] == nj0[m]);
                    }
                }
            }
        }
        i = i + 1;
    }
    proof {
        assert forall|jid: u128| #[trigger] oj.contains_key(jid) && is_source_joint(oj[jid]) implies joint_mirrored(oj[jid], *suffixes, *g, rev_body.view_map(), joints.view_map(), rev_joint.view_map()) by {
            let k = choose|k: int| 0 <= k < ids@.len() && ids@[k] == jid;
            assert(oj.contains_key(ids@[k]));
        }
    }
}

// ------------------------------------------------------------ bone map

/// The bone a body follows, and the rest of how it follows it.
#[derive(Debug, Clone)]
pub struct BoneWeight<X> {
    pub bone: String,
    pub rest: X,
}

/// How a body follows a bone.
#[derive(Debug, Clone)]
pub struct BodyMapping<X> {
    pub body_id: u128,
    pub bone: BoneWeight<X>,
    /// For a mirror image, the body whose mapping it mirrors.
    pub created_from: Option<u128>,
}

/// A body that a bone follows, and the rest of how it follows it.
#[derive(Debug, Clone)]
pub struct BodyWeight<W> {
    pub body: u128,
    pub rest: W,
}

/// How a bone follows bodies.
#[derive(Debug, Clone)]
pub struct BoneMapping<W> {
    pub bone_id: String,
    pub bodies: Vec<BodyWeight<W>>,
    /// For a mirror image, the bone whose mapping it mirrors.
    pub created_from: Option<String>,
}

/// The mappings between the bodies of a ragdoll and the bones of a
/// skeleton: for each body the bone it follows, and for each bone (by its
/// path) the bodies it follows.
#[derive(Debug, Clone)]
pub struct RagdollBoneMap<X, W> {
    pub bodies_from_bones: KeyMap<u128, BodyMapping<X>>,
    pub bones_from_bodies: KeyMap<String, BoneMapping<W>>,
}

impl<X, W> RagdollBoneMap<X, W> {
    pub open spec fn wf(&self) -> bool {
        self.bodies_from_bones.wf() && self.bones_from_bodies.wf()
    }
}

/// `m` mirrors the body mapping `b` onto the body `mid`: the same way of
/// following, of the bone that `h` gives for `b`'s bone.
pub open spec fn is_body_mapping_mirror<X: Clone, H: Fn(&String) -> String>(
    m: BodyMapping<X>,
    b: BodyMapping<X>,
    src: u128,
    mid: u128,
    h: H,
) -> bool {
    &&& m.body_id == mid
    &&& h.ensures((&b.bone.bone,), m.bone.bone)
    &&& cloned(b.bone.rest, m.bone.rest)
    &&& m.created_from == Some(src)
}

/// Mirrors the mapping of the body `bid` onto its mirror image `mid`.
fn mirror_body_mapping<X: Clone, H: Fn(&String) -> String>(
    bid: u128,
    mid: u128,
    map: &mut KeyMap<u128, BodyMapping<X>>,
    h: &H,
)
    requires
        old(map).wf(),
        old(map).view_map().contains_key(bid),
        bid != mid,
        forall|p: &String| #[trigger] h.requires((p,)),
    ensures
        final(map).wf(),
        final(map).view_map() == old(map).view_map().insert(mid, final(map).view_map()[mid]),
        is_body_mapping_mirror(final(map).view_map()[mid], old(map).view_map()[bid], bid, mid, *h),
{
    let m = match map.get(&bid) {
        Some(orig) => BodyMapping {
            body_id: mid,
            bone: BoneWeight { bone: h(&orig.bone.bone), rest: orig.bone.rest.clone() },
            created_from: Some(bid),
        },
        None => {
            proof {
                assert(false);
            }
            return;
        },
    };
    map.insert(mid, m);
    proof {
        assert(map.view_map() =~= old(map).view_map().insert(mid, map.view_map()[mid]));
    }
}

/// Every mapped source body of the ragdoll `bodies` gets its mapping
/// mirrored onto its mirror image, as `rev` names it.
fn mirror_body_mappings<B, X: Clone, H: Fn(&String) -> String>(
    map: &mut KeyMap<u128, BodyMapping<X>>,
    bodies: &KeyMap<u128, Body<B>>,
    rev: &KeyMap<u128, u128>,
    h: &H,
)
    requires
        old(map).wf(),
        bodies_consistent(*rev, *bodies),
        forall|bid: u128| #[trigger] bodies.view_map().contains_key(bid) && is_source_body(bodies.view_map()[bid]) ==> rev.view_map().contains_key(bid) && rev.view_map()[bid] != bid,
        forall|p: &String| #[trigger] h.requires((p,)),
    ensures
        final(map).wf(),
        forall|bid: u128| #[trigger] old(map).view_map().contains_key(bid) && bodies.view_map().contains_key(bid) && is_source_body(bodies.view_map()[bid]) ==> {
            let mid = rev.view_map()[bid];
            &&& final(map).view_map().contains_key(mid)
            &&& is_body_mapping_mirror(final(map).view_map()[mid], old(map).view_map()[bid], bid, mid, *h)
            &&& final(map).view_map()[bid] == old(map).view_map()[bid]
        },
        forall|x: u128| #[trigger] final(map).view_map().contains_key(x) ==> old(map).view_map().contains_key(x) && final(map).view_map()[x] == old(map).view_map()[x] || (exists|bid: u128| old(map).view_map().contains_key(bid) && bodies.view_map().contains_key(bid) && is_source_body(bodies.view_map()[bid]) && rev.view_map()[bid] == x),
        forall|x: u128| #[trigger] old(map).view_map().contains_key(x) ==> final(map).view_map().contains_key(x),
{
    let ids = id_list(map);
    let ghost om = map.view_map();
    let ghost bm = bodies.view_map();
    let ghost rm = rev.view_map();
    proof {
        assert forall|a: int, b: int| 0 <= a < b < ids@.len() implies ids@[a] != ids@[b] by {
            assert(ids@[a] == map.entries@[a].0);
            assert(ids@[b] == map.entries@[b].0);
        }
        assert forall|bid: u128| #[trigger] om.contains_key(bid) implies ids@.contains(bid) by {
            lemma_position_entry(map.entries@, bid);
            let k = key_position(map.entries@, bid)->0;
            assert(ids@[k] == map.entries@[k].0);
        }
    }
    let mut i: usize = 0;
    while i < ids.len()
        invariant
            i <= ids.len(),
            map.wf(),
            om == old(map).view_map(),
            bm == bodies.view_map(),
            rm == rev.view_map(),
            bodies_consistent(*rev, *bodies),
            forall|bid: u128| #[trigger] bm.contains_key(bid) && is_source_body(bm[bid]) ==> rm.contains_key(bid) && rm[bid] != bid,
            forall|p: &String| #[trigger] h.requires((p,)),
            forall|a: int, b: int| 0 <= a < b < ids@.len() ==> ids@[a] != ids@[b],
            forall|bid: u128| #[trigger] om.contains_key(bid) ==> ids@.contains(bid),
            forall|x: u128| #[trigger] om.contains_key(x) ==> map.view_map().contains_key(x),
            forall|x: u128| #[trigger] bm.contains_key(x) && is_source_body(bm[x]) && om.contains_key(x) ==> map.view_map()[x] == om[x],
            forall|x: u128| #[trigger] map.view_map().contains_key(x) ==> om.contains_key(x) && map.view_map()[x] == om[x] || (exists|bid: u128| om.contains_key(bid) && bm.contains_key(bid) && is_source_body(bm[bid]) && rm[bid] == x),
            forall|k: int| 0 <= k < i && om.contains_key(#[trigger] ids@[k]) && bm.contains_key(ids@[k]) && is_source_body(bm[ids@[k]]) ==> map.view_map().contains_key(rm[ids@[k]]) && is_body_mapping_mirror(map.view_map()[rm[ids@[k]]], om[ids@[k]], ids@[k], rm[ids@[k]], *h),
        decreases ids.len() - i,
    {
        let bid = ids[i];
        let is_source = match bodies.get(&bid) {
            Some(b) => b.use_symmetry && b.created_from.is_none(),
            None => false,
        };
        if is_source && map.contains(&bid) {
            let mid = match rev.get(&bid) {
                Some(m) => *m,
                None => {
                    proof {
                        assert(false);
                    }
                    return;
                },
            };
            let ghost m0 = map.view_map();
            proof {
                assert(om.contains_key(bid)) by {
                    if !om.contains_key(bid) {
                        let b0 = choose|b0: u128| om.contains_key(b0) && bm.contains_key(b0) && is_source_body(bm[b0]) && rm[b0] == bid;
                        assert(bm[rm[b0]].source() == Some(b0));
                    }
                }
                assert(m0[bid] == om[bid]);
            }
            mirror_body_mapping(bid, mid, map, h);
            proof {
                let nm = map.view_map();
                assert(bm[mid].source() == Some(bid));
                assert forall|x: u128| #[trigger] om.contains_key(x) implies nm.contains_key(x) by {
                    assert(m0.contains_key(x));
                }
                assert forall|x: u128| #[trigger] bm.contains_key(x) && is_source_body(bm[x]) && om.contains_key(x) implies nm[x] == om[x] by {
                    assert(x != mid);
                }
                assert forall|x: u128| #[trigger] nm.contains_key(x) implies om.contains_key(x) && nm[x] == om[x] || (exists|b0: u128| om.contains_key(b0) && bm.contains_key(b0) && is_source_body(bm[b0]) && rm[b0] == x) by {
                    if x == mid {
                        assert(om.contains_key(bid) && bm.contains_key(bid) && is_source_body(bm[bid]) && rm[bid] == x);
                    } else {
                        assert(m0.contains_key(x));
                    }
                }
                assert forall|k: int| 0 <= k < i + 1 && om.contains_key(#[trigger] ids@[k]) && bm.contains_key(ids@[k]) && is_source_body(bm[ids@[k]]) implies nm.contains_key(rm[ids@[k]]) && is_body_mapping_mirror(nm[rm[ids@[k]]], om[ids@[k]], ids@[k], rm[ids@[k]], *h) by {
                    if k < i {
                        let x = ids@[k];
                        assert(x != bid);
                        assert(bm[rm[x]].source() == Some(x));
                        assert(rm[x] != mid);
                    }
                }
            }
        }
        i = i + 1;
    }
    proof {
        assert forall|bid: u128| #[trigger] om.contains_key(bid) && bm.contains_key(bid) && is_source_body(bm[bid]) implies map.view_map().contains_key(rm[bid]) && is_body_mapping_mirror(map.view_map()[rm[bid]], om[bid], bid, rm[bid], *h) by {
            let k = choose|k: int| 0 <= k < ids@.len() && ids@[k] == bid;
            assert(om.contains_key(ids@[k]));
        }
    }
}

/// The weights `ws` are those of `os`, each moved to the mirror image of
/// its body (per `rev`) and mirrored by `w`.
pub open spec fn weights_mirrored<W, V: Fn(&W) -> W>(
    ws: Seq<BodyWeight<W>>,
    os: Seq<BodyWeight<W>>,
    rev: Map<u128, u128>,
    w: V,
) -> bool {
    &&& ws.len() == os.len()
    &&& forall|k: int| 0 <= k < ws.len() ==> (#[trigger] ws[k]).body == remapped(rev, os[k].body) && w.ensures((&os[k].rest,), ws[k].rest)
}

/// `m` mirrors the bone mapping `b` of the bone `src` onto the bone `tgt`.
pub open spec fn is_bone_mapping_mirror<W, V: Fn(&W) -> W>(
    m: BoneMapping<W>,
    b: BoneMapping<W>,
    src: Seq<char>,
    tgt: Seq<char>,
    rev: Map<u128, u128>,
    w: V,
) -> bool {
    &&& m.bone_id@ == tgt
    &&& m.created_from matches Some(s) && s@ == src
    &&& weights_mirrored(m.bodies@, b.bodies@, rev, w)
}

fn mirror_weights<W, V: Fn(&W) -> W>(os: &Vec<BodyWeight<W>>, rev: &KeyMap<u128, u128>, w: &V) -> (ws: Vec<BodyWeight<W>>)
    requires
        rev.wf(),
        forall|p: &W| #[trigger] w.requires((p,)),
    ensures
        weights_mirrored(ws@, os@, rev.view_map(), *w),
{
    let mut ws: Vec<BodyWeight<W>> = Vec::new();
    let mut i: usize = 0;
    while i < os.len()
        invariant
            i <= os.len(),
            rev.wf(),
            forall|p: &W| #[trigger] w.requires((p,)),
            ws@.len() == i,
            forall|k: int| 0 <= k < i ==> (#[trigger] ws@[k]).body == remapped(rev.view_map(), os@[k].body) && w.ensures((&os@[k].rest,), ws@[k].rest),
        decreases os.len() - i,
    {
        let body = remap(rev, os[i].body);
        let rest = w(&os[i].rest);
        ws.push(BodyWeight { body, rest });
        i = i + 1;
    }
    ws
}

/// The bone `p` holds a mapping that is not a mirror image.
pub open spec fn is_original_mapping<W>(bones: Map<Seq<char>, BoneMapping<W>>, p: Seq<char>) -> bool {
    bones.contains_key(p) && bones[p].created_from is None
}

/// `h` sends the bones of distinct original mappings to distinct bones, and
/// never to the bone of another original mapping.
pub open spec fn flip_separates_originals<W, H: Fn(&String) -> String>(bones: Map<Seq<char>, BoneMapping<W>>, h: H) -> bool {
    &&& forall|p: String, q: String, fp: String, fq: String|
        #![trigger h.ensures((&p,), fp), h.ensures((&q,), fq)]
        is_original_mapping(bones, p@) && is_original_mapping(bones, q@) && p@ != q@ && h.ensures((&p,), fp) && h.ensures((&q,), fq) ==> fp@ != fq@
    &&& forall|p: String, fp: String, q: Seq<char>|
        #![trigger h.ensures((&p,), fp), is_original_mapping(bones, q)]
        is_original_mapping(bones, p@) && is_original_mapping(bones, q) && p@ != q && h.ensures((&p,), fp) ==> fp@ != q
}

/// The original mapping `b` of the bone `p` has its mirror image in
/// `bones` on the bone that `h` gives for `p`, unless that is `p` itself.
pub open spec fn bone_mapping_mirrored<W, V: Fn(&W) -> W, H: Fn(&String) -> String>(
    p: Seq<char>,
    b: BoneMapping<W>,
    bones: Map<Seq<char>, BoneMapping<W>>,
    rev: Map<u128, u128>,
    h: H,
    w: V,
) -> bool {
    exists|s: String, t: String|
        #![trigger h.ensures((&s,), t)]
        s@ == p && h.ensures((&s,), t) && (t@ == p || (bones.contains_key(t@) && is_bone_mapping_mirror(bones[t@], b, p, t@, rev, w)))
}

/// Every bone mapping that is not a mirror image gets a mirror image on the
/// bone that `h` gives for its bone, unless that is the same bone: the
/// mapping's weights, each moved to the mirror image of its body and
/// mirrored by `w`. Bones are visited in storage order, and a mapping
/// turned into a mirror image before its turn is not mirrored; where `h`
/// keeps the original mappings apart, none is, every original mapping
/// stays as it was and has its mirror image.
fn mirror_bone_mappings<W, V: Fn(&W) -> W, H: Fn(&String) -> String>(
    map: &mut KeyMap<String, BoneMapping<W>>,
    rev: &KeyMap<u128, u128>,
    h: &H,
    w: &V,
)
    requires
        old(map).wf(),
        rev.wf(),
        forall|p: &String| #[trigger] h.requires((p,)),
        forall|p: &W| #[trigger] w.requires((p,)),
    ensures
        final(map).wf(),
        forall|x: Seq<char>| #[trigger] old(map).view_map().contains_key(x) ==> final(map).view_map().contains_key(x),
        forall|x: Seq<char>| #[trigger] final(map).view_map().contains_key(x) ==> (old(map).view_map().contains_key(x) && final(map).view_map()[x] == old(map).view_map()[x]) || ({
            let m = final(map).view_map()[x];
            &&& m.created_from is Some
            &&& old(map).view_map().contains_key(m.created_from->0@)
            &&& old(map).view_map()[m.created_from->0@].created_from is None
            &&& m.created_from->0@ != x
            &&& is_bone_mapping_mirror(m, old(map).view_map()[m.created_from->0@], m.created_from->0@, x, rev.view_map(), *w)
            &&& exists|s: String, t: String| #![trigger h.ensures((&s,), t)] s@ == m.created_from->0@ && h.ensures((&s,), t) && t@ == x
        }),
        flip_separates_originals(old(map).view_map(), *h) ==> forall|p: Seq<char>| #[trigger] is_original_mapping(old(map).view_map(), p) ==> {
            &&& final(map).view_map()[p] == old(map).view_map()[p]
            &&& bone_mapping_mirrored(p, old(map).view_map()[p], final(map).view_map(), rev.view_map(), *h, *w)
        },
{
    let keys = map.keys();
    let ghost om = map.view_map();
    let ghost sep = flip_separates_originals(om, *h);
    let mut i: usize = 0;
    while i < keys.len()
        invariant
            i <= keys.len(),
            map.wf(),
            rev.wf(),
            om == old(map).view_map(),
            sep == flip_separates_originals(om, *h),
            keys@.len() == old(map).entries@.len(),
            forall|k: int| 0 <= k < keys@.len() ==> #[trigger] keys@[k]@ == old(map).entries@[k].0@,
            forall|p: Seq<char>| #[trigger] om.contains_key(p) ==> exists|k: int| 0 <= k < keys@.len() && keys@[k]@ == p,
            forall|a: int, b: int| 0 <= a < b < keys@.len() ==> keys@[a]@ != keys@[b]@,
            forall|p: &String| #[trigger] h.requires((p,)),
            forall|p: &W| #[trigger] w.requires((p,)),
            forall|x: Seq<char>| #[trigger] om.contains_key(x) ==> map.view_map().contains_key(x),
            forall|x: Seq<char>| #[trigger] map.view_map().contains_key(x) ==> (om.contains_key(x) && map.view_map()[x] == om[x]) || ({
                let m = map.view_map()[x];
                &&& m.created_from is Some
                &&& om.contains_key(m.created_from->0@)
                &&& om[m.created_from->0@].created_from is None
                &&& m.created_from->0@ != x
                &&& is_bone_mapping_mirror(m, om[m.created_from->0@], m.created_from->0@, x, rev.view_map(), *w)
                &&& exists|s: String, t: String| #![trigger h.ensures((&s,), t)] s@ == m.created_from->0@ && h.ensures((&s,), t) && t@ == x
            }),
            sep ==> forall|p: Seq<char>| #[trigger] is_original_mapping(om, p) ==> map.view_map()[p] == om[p],
            sep ==> forall|k: int| 0 <= k < i && is_original_mapping(om, #[trigger] keys@[k]@) ==> bone_mapping_mirrored(keys@[k]@, om[keys@[k]@], map.view_map(), rev.view_map(), *h, *w),
        decreases keys.len() - i,
    {
        let path = &keys[i];
        let ghost m0 = map.view_map();
        let is_original = match map.get(path) {
            Some(m) => m.created_from.is_none(),
            None => false,
        };
        if is_original {
            let target = h(path);
            if !target.same_key(path) {
                let mirror = match map.get(path) {
                    Some(orig) => {
                        let ws = mirror_weights(&orig.bodies, rev, w);
                        let src = path.duplicate();
                        BoneMapping { bone_id: target.duplicate(), bodies: ws, created_from: Some(src) }
                    },
                    None => {
                        proof {
                            assert(false);
                        }
                        return;
                    },
                };
                proof {
                    // the mapping of `path` has not been changed so far
                    assert(m0.contains_key(path@));
                    if !(om.contains_key(path@) && m0[path@] == om[path@]) {
                        assert(m0[path@].created_from is Some);
                    }
                }
                let ghost tv = target@;
                let ghost ps = *path;
                let ghost ts = target;
                map.insert(target, mirror);
                proof {
                    let nm = map.view_map();
                    assert(h.ensures((&ps,), ts));
                    assert forall|x: Seq<char>| #[trigger] om.contains_key(x) implies nm.contains_key(x) by {
                        assert(m0.contains_key(x));
                    }
                    assert forall|x: Seq<char>| #[trigger] nm.contains_key(x) implies (om.contains_key(x) && nm[x] == om[x]) || ({
                        let m = nm[x];
                        &&& m.created_from is Some
                        &&& om.contains_key(m.created_from->0@)
                        &&& om[m.created_from->0@].created_from is None
                        &&& m.created_from->0@ != x
                        &&& is_bone_mapping_mirror(m, om[m.created_from->0@], m.created_from->0@, x, rev.view_map(), *w)
                        &&& exists|s: String, t: String| #![trigger h.ensures((&s,), t)] s@ == m.created_from->0@ && h.ensures((&s,), t) && t@ == x
                    }) by {
                        if x != tv {
                            assert(m0.contains_key(x));
                        }
                    }
                    if sep {
                        assert(is_original_mapping(om, path@));
                        assert forall|p: Seq<char>| #[trigger] is_original_mapping(om, p) implies nm[p] == om[p] by {
                            if p != path@ {
                                assert(is_original_mapping(om, ps@));
                                assert(tv != p);
                            }
                        }
                        assert forall|k: int| 0 <= k < i + 1 && is_original_mapping(om, #[trigger] keys@[k]@) implies bone_mapping_mirrored(keys@[k]@, om[keys@[k]@], nm, rev.view_map(), *h, *w) by {
                            if k < i {
                                let (s0, t0) = choose|s0: String, t0: String| #![trigger h.ensures((&s0,), t0)] s0@ == keys@[k]@ && h.ensures((&s0,), t0) && (t0@ == keys@[k]@ || (m0.contains_key(t0@) && is_bone_mapping_mirror(m0[t0@], om[keys@[k]@], keys@[k]@, t0@, rev.view_map(), *w)));
                                assert(keys@[k]@ != ps@);
                                assert(t0@ != tv);
                                assert(h.ensures((&s0,), t0));
                            } else {
                                assert(h.ensures((&ps,), ts));
                            }
                        }
                    }
                }
            } else {
                proof {
                    let ghost ps = *path;
                    if sep {
                        assert forall|k: int| 0 <= k < i + 1 && is_original_mapping(om, #[trigger] keys@[k]@) implies bone_mapping_mirrored(keys@[k]@, om[keys@[k]@], map.view_map(), rev.view_map(), *h, *w) by {
                            if k == i {
                                assert(h.ensures((&ps,), target));
                            }
                        }
                    }
                }
            }
        } else {
            proof {
                if sep {
                    assert forall|k: int| 0 <= k < i + 1 && is_original_mapping(om, #[trigger] keys@[k]@) implies bone_mapping_mirrored(keys@[k]@, om[keys@[k]@], map.view_map(), rev.view_map(), *h, *w) by {
                        if k == i {
                            assert(map.view_map()[keys@[k]@] == om[keys@[k]@]);
                        }
                    }
                }
            }
        }
        i = i + 1;
    }
    proof {
        if sep {
            assert forall|p: Seq<char>| #[trigger] is_original_mapping(om, p) implies bone_mapping_mirrored(p, om[p], map.view_map(), rev.view_map(), *h, *w) by {
                let k = choose|k: int| 0 <= k < keys@.len() && keys@[k]@ == p;
                assert(is_original_mapping(om, keys@[k]@));
            }
        }
    }
}

// ------------------------------------------------------------- cleanup

/// A mirror image whose original is gone or no longer symmetric.
pub open spec fn is_stale_body<B>(bodies: Map<u128, Body<B>>, x: u128) -> bool {
    bodies[x].created_from matches Some(s) && (!bodies.contains_key(s) || !bodies[s].use_symmetry)
}

/// No joint of `joints` is stale.
pub open spec fn no_stale_joint<J>(joints: Map<u128, Joint<J>>) -> bool {
    forall|x: u128| #[trigger] joints.contains_key(x) ==> !is_stale_joint(joints, x)
}

/// No body of `bodies` is stale.
pub open spec fn no_stale_body<B>(bodies: Map<u128, Body<B>>) -> bool {
    forall|x: u128| #[trigger] bodies.contains_key(x) ==> !is_stale_body(bodies, x)
}

/// A mirror image whose original is a body that is kept and mirrored.
pub open spec fn mirrors_a_source<B>(bodies: Map<u128, Body<B>>, x: u128) -> bool {
    bodies[x].created_from matches Some(s) && bodies.contains_key(s) && is_source_body(bodies[s])
}

/// The collider `c` is listed by a body of `old` that `new` no longer has.
pub open spec fn listed_by_removed<B>(old: Map<u128, Body<B>>, new: Map<u128, Body<B>>, c: u128) -> bool {
    exists|x: u128| #[trigger] old.contains_key(x) && !new.contains_key(x) && old[x].colliders@.contains(c)
}

fn remove_colliders<C>(colliders: &mut KeyMap<u128, Collider<C>>, cids: &Vec<u128>)
    requires
        old(colliders).wf(),
    ensures
        final(colliders).wf(),
        forall|c: u128| #[trigger] final(colliders).view_map().contains_key(c) <==> old(colliders).view_map().contains_key(c) && !cids@.contains(c),
        forall|c: u128| #[trigger] final(colliders).view_map().contains_key(c) ==> final(colliders).view_map()[c] == old(colliders).view_map()[c],
{
    let mut i: usize = 0;
    while i < cids.len()
        invariant
            i <= cids.len(),
            colliders.wf(),
            forall|c: u128| #[trigger] colliders.view_map().contains_key(c) <==> old(colliders).view_map().contains_key(c) && !cids@.take(i as int).contains(c),
            forall|c: u128| #[trigger] colliders.view_map().contains_key(c) ==> colliders.view_map()[c] == old(colliders).view_map()[c],
        decreases cids.len() - i,
    {
        let ghost before = colliders.view_map();
        let _ = colliders.remove(&cids[i]);
        proof {
            let t = cids@.take(i as int);
            let t1 = cids@.take(i + 1);
            assert(t1 =~= t.push(cids@[i as int]));
            assert forall|c: u128| #[trigger] t1.contains(c) <==> t.contains(c) || c == cids@[i as int] by {
                if t1.contains(c) {
                    let k = choose|k: int| 0 <= k < t1.len() && t1[k] == c;
                    if k < t.len() {
                        assert(t[k] == c);
                    }
                }
                if t.contains(c) {
                    let k = choose|k: int| 0 <= k < t.len() && t[k] == c;
                    assert(t1[k] == c);
                }
                if c == cids@[i as int] {
                    assert(t1[i as int] == c);
                }
            }
            assert forall|c: u128| #[trigger] colliders.view_map().contains_key(c) <==> old(colliders).view_map().contains_key(c) && !t1.contains(c) by {
                assert(before.contains_key(c) <==> old(colliders).view_map().contains_key(c) && !t.contains(c));
            }
        }
        i = i + 1;
    }
    proof {
        assert(cids@.take(cids.len() as int) =~= cids@);
    }
}

/// Removes every mirror-image body whose original is gone or no longer
/// symmetric, with the colliders it lists, visiting bodies in storage
/// order.
fn remove_stale_bodies<B, C, J>(r: &mut Ragdoll<B, C, J>)
    requires
        old(r).wf(),
    ensures
        final(r).wf(),
        final(r).suffixes == old(r).suffixes,
        final(r).joint_map() == old(r).joint_map(),
        forall|x: u128| #[trigger] final(r).body_map().contains_key(x) ==> old(r).body_map().contains_key(x) && final(r).body_map()[x] == old(r).body_map()[x],
        forall|x: u128| #[trigger] old(r).body_map().contains_key(x) && old(r).body_map()[x].created_from is None ==> final(r).body_map().contains_key(x),
        forall|x: u128| #[trigger] old(r).body_map().contains_key(x) && mirrors_a_source(old(r).body_map(), x) ==> final(r).body_map().contains_key(x),
        forall|x: u128| #[trigger] old(r).body_map().contains_key(x) && is_stale_body(old(r).body_map(), x) ==> !final(r).body_map().contains_key(x),
        forall|x: u128| #[trigger] old(r).body_map().contains_key(x) && !final(r).body_map().contains_key(x) ==> old(r).body_map()[x].created_from is Some,
        forall|c: u128| #[trigger] final(r).collider_map().contains_key(c) <==> old(r).collider_map().contains_key(c) && !listed_by_removed(old(r).body_map(), final(r).body_map(), c),
        forall|c: u128| #[trigger] final(r).collider_map().contains_key(c) ==> final(r).collider_map()[c] == old(r).collider_map()[c],
        no_stale_body(old(r).body_map()) ==> final(r).body_map() == old(r).body_map(),
{
    let ids = id_list(&r.bodies);
    let ghost ob = r.body_map();
    let ghost oc = r.collider_map();
    proof {
        assert forall|a: int, b: int| 0 <= a < b < ids@.len() implies ids@[a] != ids@[b] by {
            assert(ids@[a] == r.bodies.entries@[a].0);
            assert(ids@[b] == r.bodies.entries@[b].0);
        }
        assert forall|x: u128| #[trigger] ob.contains_key(x) implies ids@.contains(x) by {
            lemma_position_entry(r.bodies.entries@, x);
            let k = key_position(r.bodies.entries@, x)->0;
            assert(ids@[k] == r.bodies.entries@[k].0);
        }
    }
    let mut i: usize = 0;
    while i < ids.len()
        invariant
            i <= ids.len(),
            r.wf(),
            ob == old(r).body_map(),
            oc == old(r).collider_map(),
            r.suffixes == old(r).suffixes,
            r.joint_map() == old(r).joint_map(),
            forall|k: u128| #[trigger] ob.contains_key(k) ==> ob[k].id == k,
            forall|a: int, b: int| 0 <= a < b < ids@.len() ==> ids@[a] != ids@[b],
            forall|x: u128| #[trigger] ob.contains_key(x) ==> ids@.contains(x),
            forall|x: u128| #[trigger] r.body_map().contains_key(x) ==> ob.contains_key(x) && r.body_map()[x] == ob[x],
            forall|x: u128| #[trigger] ob.contains_key(x) && !r.body_map().contains_key(x) ==> ob[x].created_from is Some && (exists|k: int| 0 <= k < i && ids@[k] == x),
            forall|x: u128| #[trigger] ob.contains_key(x) && ob[x].created_from is None ==> r.body_map().contains_key(x),
            forall|k: int| 0 <= k < i && ob.contains_key(#[trigger] ids@[k]) && mirrors_a_source(ob, ids@[k]) ==> r.body_map().contains_key(ids@[k]),
            forall|k: int| 0 <= k < i && ob.contains_key(#[trigger] ids@[k]) && is_stale_body(ob, ids@[k]) ==> !r.body_map().contains_key(ids@[k]),
            forall|k: int| i <= k < ids@.len() && ob.contains_key(#[trigger] ids@[k]) ==> r.body_map().contains_key(ids@[k]),
            forall|c: u128| #[trigger] r.collider_map().contains_key(c) <==> oc.contains_key(c) && !listed_by_removed(ob, r.body_map(), c),
            forall|c: u128| #[trigger] r.collider_map().contains_key(c) ==> r.collider_map()[c] == oc[c],
            no_stale_body(ob) ==> r.body_map() == ob,
        decreases ids.len() - i,
    {
        let bid = ids[i];
        let stale = match r.bodies.get(&bid) {
            Some(b) => match b.created_from {
                Some(src) => match r.bodies.get(&src) {
                    Some(source) => !source.use_symmetry,
                    None => true,
                },
                None => false,
            },
            None => false,
        };
        if stale {
            let ghost b0 = r.body_map();
            let ghost c0 = r.collider_map();
            match r.bodies.remove(&bid) {
                Some(b) => {
                    remove_colliders(&mut r.colliders, &b.colliders);
                    proof {
                        let nb = r.body_map();
                        let nc = r.collider_map();
                        assert(b == ob[bid]);
                        assert forall|c: u128| #[trigger] nc.contains_key(c) <==> oc.contains_key(c) && !listed_by_removed(ob, nb, c) by {
                            if listed_by_removed(ob, nb, c) {
                                let x = choose|x: u128| #[trigger] ob.contains_key(x) && !nb.contains_key(x) && ob[x].colliders@.contains(c);
                                if x != bid {
                                    assert(listed_by_removed(ob, b0, c));
                                }
                            }
                            if listed_by_removed(ob, b0, c) {
                                let x = choose|x: u128| #[trigger] ob.contains_key(x) && !b0.contains_key(x) && ob[x].colliders@.contains(c);
                                assert(!nb.contains_key(x));
                                assert(listed_by_removed(ob, nb, c));
                            }
                            if b.colliders@.contains(c) {
                                assert(!nb.contains_key(bid));
                                assert(listed_by_removed(ob, nb, c));
                            }
                        }
                        assert forall|k: int| 0 <= k < i + 1 && ob.contains_key(#[trigger] ids@[k]) && mirrors_a_source(ob, ids@[k]) implies nb.contains_key(ids@[k]) by {
                            if k == i {
                                let s = ob[bid].created_from->0;
                                assert(b0.contains_key(s));
                            }
                        }
                        assert forall|x: u128| #[trigger] ob.contains_key(x) && !nb.contains_key(x) implies ob[x].created_from is Some && (exists|k: int| 0 <= k < i + 1 && ids@[k] == x) by {
                            if x == bid {
                                assert(ids@[i as int] == x);
                            } else {
                                assert(!b0.contains_key(x));
                                let k = choose|k: int| 0 <= k < i && ids@[k] == x;
                                assert(ids@[k] == x);
                            }
                        }
                        assert forall|k: int| i + 1 <= k < ids@.len() && ob.contains_key(#[trigger] ids@[k]) implies nb.contains_key(ids@[k]) by {
                            assert(ids@[k] != ids@[i as int]);
                        }
                    }
                },
                None => {},
            }
        } else {
            proof {
                let nb = r.body_map();
                assert forall|k: int| 0 <= k < i + 1 && ob.contains_key(#[trigger] ids@[k]) && is_stale_body(ob, ids@[k]) implies !nb.contains_key(ids@[k]) by {
                    if k == i {
                        assert(nb.contains_key(bid));
                        let s = ob[bid].created_from->0;
                        if nb.contains_key(s) {
                            assert(nb[s] == ob[s]);
                        }
                    }
                }
                assert forall|x: u128| #[trigger] ob.contains_key(x) && !nb.contains_key(x) implies ob[x].created_from is Some && (exists|k: int| 0 <= k < i + 1 && ids@[k] == x) by {
                    let k = choose|k: int| 0 <= k < i && ids@[k] == x;
                    assert(ids@[k] == x);
                }
            }
        }
        i = i + 1;
    }
    proof {
        let nb = r.body_map();
        assert forall|x: u128| #[trigger] ob.contains_key(x) && mirrors_a_source(ob, x) implies nb.contains_key(x) by {
            let k = choose|k: int| 0 <= k < ids@.len() && ids@[k] == x;
            assert(ob.contains_key(ids@[k]));
        }
        assert forall|x: u128| #[trigger] ob.contains_key(x) && is_stale_body(ob, x) implies !nb.contains_key(x) by {
            let k = choose|k: int| 0 <= k < ids@.len() && ids@[k] == x;
            assert(ob.contains_key(ids@[k]));
        }
    }
}

/// A mirror-image joint whose original is gone or no longer symmetric.
pub open spec fn is_stale_joint<J>(joints: Map<u128, Joint<J>>, x: u128) -> bool {
    joints[x].created_from matches Some(s) && (!joints.contains_key(s) || !joints[s].use_symmetry)
}

/// A mirror-image joint whose original is kept and mirrored.
pub open spec fn mirrors_a_source_joint<J>(joints: Map<u128, Joint<J>>, x: u128) -> bool {
    joints[x].created_from matches Some(s) && joints.contains_key(s) && is_source_joint(joints[s])
}

/// Removes every mirror-image joint whose original is gone or no longer
/// symmetric, visiting joints in storage order.
fn remove_stale_joints<J>(joints: &mut KeyMap<u128, Joint<J>>)
    requires
        old(joints).wf(),
    ensures
        final(joints).wf(),
        forall|x: u128| #[trigger] final(joints).view_map().contains_key(x) ==> old(joints).view_map().contains_key(x) && final(joints).view_map()[x] == old(joints).view_map()[x],
        forall|x: u128| #[trigger] old(joints).view_map().contains_key(x) && old(joints).view_map()[x].created_from is None ==> final(joints).view_map().contains_key(x),
        forall|x: u128| #[trigger] old(joints).view_map().contains_key(x) && mirrors_a_source_joint(old(joints).view_map(), x) ==> final(joints).view_map().contains_key(x),
        forall|x: u128| #[trigger] old(joints).view_map().contains_key(x) && is_stale_joint(old(joints).view_map(), x) ==> !final(joints).view_map().contains_key(x),
        forall|x: u128| #[trigger] old(joints).view_map().contains_key(x) && !final(joints).view_map().contains_key(x) ==> old(joints).view_map()[x].created_from is Some,
        no_stale_joint(old(joints).view_map()) ==> final(joints).view_map() == old(joints).view_map(),
{
    let ids = id_list(joints);
    let ghost oj = joints.view_map();
    proof {
        assert forall|a: int, b: int| 0 <= a < b < ids@.len() implies ids@[a] != ids@[b] by {
            assert(ids@[a] == joints.entries@[a].0);
            assert(ids@[b] == joints.entries@[b].0);
        }
        assert forall|x: u128| #[trigger] oj.contains_key(x) implies ids@.contains(x) by {
            lemma_position_entry(joints.entries@, x);
            let k = key_position(joints.entries@, x)->0;
            assert(ids@[k] == joints.entries@[k].0);
        }
    }
    let mut i: usize = 0;
    while i < ids.len()
        invariant
            i <= ids.len(),
            joints.wf(),
            oj == old(joints).view_map(),
            forall|a: int, b: int| 0 <= a < b < ids@.len() ==> ids@[a] != ids@[b],
            forall|x: u128| #[trigger] oj.contains_key(x) ==> ids@.contains(x),
            forall|x: u128| #[trigger] joints.view_map().contains_key(x) ==> oj.contains_key(x) && joints.view_map()[x] == oj[x],
            forall|x: u128| #[trigger] oj.contains_key(x) && !joints.view_map().contains_key(x) ==> oj[x].created_from is Some && (exists|k: int| 0 <= k < i && ids@[k] == x),
            forall|k: int| 0 <= k < i && oj.contains_key(#[trigger] ids@[k]) && mirrors_a_source_joint(oj, ids@[k]) ==> joints.view_map().contains_key(ids@[k]),
            forall|k: int| 0 <= k < i && oj.contains_key(#[trigger] ids@[k]) && is_stale_joint(oj, ids@[k]) ==> !joints.view_map().contains_key(ids@[k]),
            forall|k: int| i <= k < ids@.len() && oj.contains_key(#[trigger] ids@[k]) ==> joints.view_map().contains_key(ids@[k]),
            no_stale_joint(oj) ==> joints.view_map() == oj,
        decreases ids.len() - i,
    {
        let jid = ids[i];
        let stale = match joints.get(&jid) {
            Some(j) => match j.created_from {
                Some(src) => match joints.get(&src) {
                    Some(source) => !source.use_symmetry,
                    None => true,
                },
                None => false,
            },
            None => false,
        };
        let ghost j0 = joints.view_map();
        if stale {
            let _ = joints.remove(&jid);
            proof {
                let nj = joints.view_map();
                assert forall|k: int| 0 <= k < i + 1 && oj.contains_key(#[trigger] ids@[k]) && mirrors_a_source_joint(oj, ids@[k]) implies nj.contains_key(ids@[k]) by {
                    if k == i {
                        let s = oj[jid].created_from->0;
                        assert(j0.contains_key(s));
                    }
                }
                assert forall|x: u128| #[trigger] oj.contains_key(x) && !nj.contains_key(x) implies oj[x].created_from is Some && (exists|k: int| 0 <= k < i + 1 && ids@[k] == x) by {
                    if x == jid {
                        assert(ids@[i as int] == x);
                    } else {
                        let k = choose|k: int| 0 <= k < i && ids@[k] == x;
                        assert(ids@[k] == x);
                    }
                }
                assert forall|k: int| i + 1 <= k < ids@.len() && oj.contains_key(#[trigger] ids@[k]) implies nj.contains_key(ids@[k]) by {
                    assert(ids@[k] != ids@[i as int]);
                }
            }
        } else {
            proof {
                let nj = joints.view_map();
                assert forall|k: int| 0 <= k < i + 1 && oj.contains_key(#[trigger] ids@[k]) && is_stale_joint(oj, ids@[k]) implies !nj.contains_key(ids@[k]) by {
                    if k == i {
                        assert(nj.contains_key(jid));
                        let s = oj[jid].created_from->0;
                        if nj.contains_key(s) {
                            assert(nj[s] == oj[s]);
                        }
                    }
                }
                assert forall|x: u128| #[trigger] oj.contains_key(x) && !nj.contains_key(x) implies oj[x].created_from is Some && (exists|k: int| 0 <= k < i + 1 && ids@[k] == x) by {
                    let k = choose|k: int| 0 <= k < i && ids@[k] == x;
                    assert(ids@[k] == x);
                }
            }
        }
        i = i + 1;
    }
    proof {
        let nj = joints.view_map();
        assert forall|x: u128| #[trigger] oj.contains_key(x) && mirrors_a_source_joint(oj, x) implies nj.contains_key(x) by {
            let k = choose|k: int| 0 <= k < ids@.len() && ids@[k] == x;
            assert(oj.contains_key(ids@[k]));
        }
        assert forall|x: u128| #[trigger] oj.contains_key(x) && is_stale_joint(oj, x) implies !nj.contains_key(x) by {
            let k = choose|k: int| 0 <= k < ids@.len() && ids@[k] == x;
            assert(oj.contains_key(ids@[k]));
        }
    }
}

/// A body mapping is kept unless it mirrors the mapping of a body that is
/// gone or no longer symmetric.
pub open spec fn keeps_body_mapping<B, X>(bodies: Map<u128, Body<B>>, m: BodyMapping<X>) -> bool {
    m.created_from matches Some(s) ==> bodies.contains_key(s) && bodies[s].use_symmetry
}

/// Removes the mirror-image body mappings whose original body is gone or
/// no longer symmetric.
fn remove_stale_body_mappings<B, X>(map: &mut KeyMap<u128, BodyMapping<X>>, bodies: &KeyMap<u128, Body<B>>)
    requires
        old(map).wf(),
        bodies.wf(),
    ensures
        final(map).wf(),
        forall|x: u128| #[trigger] final(map).view_map().contains_key(x) <==> old(map).view_map().contains_key(x) && keeps_body_mapping(bodies.view_map(), old(map).view_map()[x]),
        forall|x: u128| #[trigger] final(map).view_map().contains_key(x) ==> final(map).view_map()[x] == old(map).view_map()[x],
{
    let ids = id_list(map);
    let ghost om = map.view_map();
    let ghost bm = bodies.view_map();
    proof {
        assert forall|a: int, b: int| 0 <= a < b < ids@.len() implies ids@[a] != ids@[b] by {
            assert(ids@[a] == map.entries@[a].0);
            assert(ids@[b] == map.entries@[b].0);
        }
        assert forall|x: u128| #[trigger] om.contains_key(x) implies ids@.contains(x) by {
            lemma_position_entry(map.entries@, x);
            let k = key_position(map.entries@, x)->0;
            assert(ids@[k] == map.entries@[k].0);
        }
    }
    let mut i: usize = 0;
    while i < ids.len()
        invariant
            i <= ids.len(),
            map.wf(),
            bodies.wf(),
            om == old(map).view_map(),
            bm == bodies.view_map(),
            forall|a: int, b: int| 0 <= a < b < ids@.len() ==> ids@[a] != ids@[b],
            forall|x: u128| #[trigger] om.contains_key(x) ==> ids@.contains(x),
            forall|x: u128| #[trigger] map.view_map().contains_key(x) ==> om.contains_key(x) && map.view_map()[x] == om[x] && keeps_body_mapping(bm, om[x]) || (exists|k: int| i <= k < ids@.len() && ids@[k] == x),
            forall|x: u128| #[trigger] om.contains_key(x) && keeps_body_mapping(bm, om[x]) ==> map.view_map().contains_key(x),
            forall|k: int| i <= k < ids@.len() && om.contains_key(#[trigger] ids@[k]) ==> map.view_map().contains_key(ids@[k]),
            forall|x: u128| #[trigger] map.view_map().contains_key(x) ==> map.view_map()[x] == om[x] && om.contains_key(x),
        decreases ids.len() - i,
    {
        let bid = ids[i];
        let stale = match map.get(&bid) {
            Some(m) => match m.created_from {
                Some(src) => match bodies.get(&src) {
                    Some(source) => !source.use_symmetry,
                    None => true,
                },
                None => false,
            },
            None => false,
        };
        if stale {
            let _ = map.remove(&bid);
        }
        proof {
            let nm = map.view_map();
            assert forall|x: u128| #[trigger] nm.contains_key(x) implies om.contains_key(x) && nm[x] == om[x] && keeps_body_mapping(bm, om[x]) || (exists|k: int| i + 1 <= k < ids@.len() && ids@[k] == x) by {
                if !(om.contains_key(x) && nm[x] == om[x] && keeps_body_mapping(bm, om[x])) {
                    let k = choose|k: int| i <= k < ids@.len() && ids@[k] == x;
                    if k == i {
                        assert(x == bid);
                    }
                    assert(ids@[k] == x);
                }
            }
            assert forall|k: int| i + 1 <= k < ids@.len() && om.contains_key(#[trigger] ids@[k]) implies nm.contains_key(ids@[k]) by {
                assert(ids@[k] != ids@[i as int]);
            }
        }
        i = i + 1;
    }
}

// ------------------------------------------------------------ the rule

/// After the rule, `mid` is the mirror image of the source body `b` (as it
/// was): in the bodies `nb` a mirrored copy of it, listing as many
/// colliders as `b` does, each of which that is still in `nc` a copy of the
/// corresponding collider of `b` (in `oc`); and where `b` followed a bone
/// (in `om`), `mid` follows the flipped bone (in `nm`).
pub open spec fn has_mirror_body<B, C: Clone, X: Clone, F: Fn(&B) -> B, H: Fn(&String) -> String>(
    b: Body<B>,
    mid: u128,
    suffixes: SymmetrySuffixes,
    f: F,
    h: H,
    oc: Map<u128, Collider<C>>,
    nb: Map<u128, Body<B>>,
    nc: Map<u128, Collider<C>>,
    om: Map<u128, BodyMapping<X>>,
    nm: Map<u128, BodyMapping<X>>,
) -> bool {
    &&& mid != b.id
    &&& nb.contains_key(mid)
    &&& is_body_mirror(nb[mid], b, mid, suffixes, f)
    &&& nb[mid].colliders@.len() == b.colliders@.len()
    &&& forall|k: int| 0 <= k < b.colliders@.len() && nc.contains_key(#[trigger] nb[mid].colliders@[k]) ==> {
        &&& nc[nb[mid].colliders@[k]].created_from == Some(b.colliders@[k])
        &&& oc[b.colliders@[k]].created_from is None ==> is_collider_mirror(nc[nb[mid].colliders@[k]], oc[b.colliders@[k]], nb[mid].colliders@[k])
    }
    &&& om.contains_key(b.id) ==> nm.contains_key(mid) && is_body_mapping_mirror(nm[mid], om[b.id], b.id, mid, h)
}

/// The body reference `n` of a mirror image stands for the reference `e`
/// of its original (bodies as they were in `ob`, and are in `nb`): the
/// mirror image of `e` where `e` is mirrored, and `e` itself where `e` is
/// neither mirrored nor has any mirror image.
pub open spec fn is_mirrored_body_ref<B>(n: u128, e: u128, ob: Map<u128, Body<B>>, nb: Map<u128, Body<B>>) -> bool {
    &&& ob.contains_key(e) && is_source_body(ob[e]) ==> nb.contains_key(n) && nb[n].created_from == Some(e)
    &&& !(ob.contains_key(e) && is_source_body(ob[e])) && !(exists|x: u128| #[trigger] ob.contains_key(x) && ob[x].created_from == Some(e)) ==> n == e
}

/// After the rule, `m`, stored under `mid`, is the mirror image of the
/// source joint `j` (as it was).
pub open spec fn is_joint_mirror_in<J, B, G: Fn(&J) -> J>(
    m: Joint<J>,
    j: Joint<J>,
    mid: u128,
    suffixes: SymmetrySuffixes,
    g: G,
    ob: Map<u128, Body<B>>,
    nb: Map<u128, Body<B>>,
) -> bool {
    &&& m.id == mid
    &&& m.label@ == mirror_side_label(j.label@, suffixes)
    &&& !m.use_symmetry
    &&& m.created_from == Some(j.id)
    &&& g.ensures((&j.props,), m.props)
    &&& is_mirrored_body_ref(m.body1, j.body1, ob, nb)
    &&& is_mirrored_body_ref(m.body2, j.body2, ob, nb)
}

/// After the rule, `m` is the mirror image, on the bone `x`, of the
/// mapping `b` of the bone `src`.
pub open spec fn is_bone_mapping_mirror_in<W, B, V: Fn(&W) -> W>(
    m: BoneMapping<W>,
    b: BoneMapping<W>,
    src: Seq<char>,
    x: Seq<char>,
    w: V,
    ob: Map<u128, Body<B>>,
    nb: Map<u128, Body<B>>,
) -> bool {
    &&& m.bone_id@ == x
    &&& m.created_from matches Some(s) && s@ == src
    &&& m.bodies@.len() == b.bodies@.len()
    &&& forall|k: int| 0 <= k < m.bodies@.len() ==> is_mirrored_body_ref((#[trigger] m.bodies@[k]).body, b.bodies@[k].body, ob, nb) && w.ensures((&b.bodies@[k].rest,), m.bodies@[k].rest)
}

/// After the rule, the original mapping `b` of the bone `p` has its mirror
/// image in `bones` on the bone that `h` gives for `p`, unless that is `p`
/// itself.
pub open spec fn bone_mapping_mirrored_in<W, B, V: Fn(&W) -> W, H: Fn(&String) -> String>(
    p: Seq<char>,
    b: BoneMapping<W>,
    bones: Map<Seq<char>, BoneMapping<W>>,
    h: H,
    w: V,
    ob: Map<u128, Body<B>>,
    nb: Map<u128, Body<B>>,
) -> bool {
    exists|s: String, t: String|
        #![trigger h.ensures((&s,), t)]
        s@ == p && h.ensures((&s,), t) && (t@ == p || (bones.contains_key(t@) && is_bone_mapping_mirror_in(bones[t@], b, p, t@, w, ob, nb)))
}

proof fn lemma_mirrored_ref<B>(
    e: u128,
    rb: Map<u128, u128>,
    orb: Map<u128, u128>,
    ob: Map<u128, Body<B>>,
    b1: Map<u128, Body<B>>,
    nb: Map<u128, Body<B>>,
)
    requires
        is_reverse_index(orb, ob),
        forall|s: u128| #[trigger] rb.contains_key(s) ==> orb.contains_key(s) || (ob.contains_key(s) && is_source_body(ob[s])),
        forall|s: u128| #[trigger] ob.contains_key(s) && is_source_body(ob[s]) ==> rb.contains_key(s) && b1.contains_key(rb[s]) && b1[rb[s]].created_from == Some(s) && b1.contains_key(s) && is_source_body(b1[s]),
        forall|x: u128| #[trigger] b1.contains_key(x) && mirrors_a_source(b1, x) ==> nb.contains_key(x),
        forall|x: u128| #[trigger] nb.contains_key(x) ==> b1.contains_key(x) && nb[x] == b1[x],
    ensures
        is_mirrored_body_ref(remapped(rb, e), e, ob, nb),
{
    if ob.contains_key(e) && is_source_body(ob[e]) {
        let n = rb[e];
        assert(mirrors_a_source(b1, n));
    }
    if !(ob.contains_key(e) && is_source_body(ob[e])) && !(exists|x: u128| #[trigger] ob.contains_key(x) && ob[x].created_from == Some(e)) {
        if rb.contains_key(e) {
            assert(orb.contains_key(e));
            assert(ob.contains_key(orb[e]) && ob[orb[e]].created_from == Some(e));
        }
    }
}

/// Some element of `m` is a mirror image of `src`.
pub open spec fn has_mirror_image<T: Mirrorable>(m: Map<u128, T>, src: u128) -> bool {
    exists|x: u128| #[trigger] m.contains_key(x) && m[x].source() == Some(src)
}

/// The mirror image `mid` that the rule gives the element `src` of `m` is
/// one `src` already had where it had one, and otherwise a new element.
pub open spec fn reuses_mirror<T: Mirrorable>(m: Map<u128, T>, src: u128, mid: u128) -> bool {
    &&& has_mirror_image(m, src) ==> m.contains_key(mid) && m[mid].source() == Some(src)
    &&& !has_mirror_image(m, src) ==> !m.contains_key(mid)
}

/// The symmetry rule holds of `r`: every source body and every source
/// joint has a mirror image.
pub open spec fn symmetry_holds<B, C, J>(r: Ragdoll<B, C, J>) -> bool {
    &&& forall|x: u128| #[trigger] r.body_map().contains_key(x) && is_source_body(r.body_map()[x])
        ==> exists|m: u128| r.body_map().contains_key(m) && r.body_map()[m].created_from == Some(x)
    &&& forall|x: u128| #[trigger] r.joint_map().contains_key(x) && is_source_joint(r.joint_map()[x])
        ==> exists|m: u128| r.joint_map().contains_key(m) && r.joint_map()[m].created_from == Some(x)
}

/// The labels of `r` are as the symmetry rule leaves them: every source
/// body and source joint is labelled on the original side, and every mirror
/// image of one carries its label moved to the mirror side.
pub open spec fn labels_settled<B, C, J>(r: Ragdoll<B, C, J>) -> bool {
    let b = r.body_map();
    let j = r.joint_map();
    &&& forall|x: u128| #[trigger] b.contains_key(x) && is_source_body(b[x])
        ==> b[x].label@ == original_side_label(b[x].label@, r.suffixes)
    &&& forall|x: u128| #[trigger] b.contains_key(x) && mirrors_a_source(b, x)
        ==> b[x].label@ == mirror_side_label(b[b[x].created_from->0].label@, r.suffixes)
    &&& forall|x: u128| #[trigger] j.contains_key(x) && is_source_joint(j[x])
        ==> j[x].label@ == original_side_label(j[x].label@, r.suffixes)
    &&& forall|x: u128| #[trigger] j.contains_key(x) && mirrors_a_source_joint(j, x)
        ==> j[x].label@ == mirror_side_label(j[j[x].created_from->0].label@, r.suffixes)
}

/// No mirror image of `r` is symmetric itself, and no body or joint has
/// two mirror images.
pub open spec fn mirror_images_plain<B, C, J>(r: Ragdoll<B, C, J>) -> bool {
    let b = r.body_map();
    let j = r.joint_map();
    &&& forall|x: u128| #[trigger] b.contains_key(x) && b[x].created_from is Some ==> !b[x].use_symmetry
    &&& forall|x: u128| #[trigger] j.contains_key(x) && j[x].created_from is Some ==> !j[x].use_symmetry
    &&& forall|x: u128, y: u128|
        #![trigger b[x].created_from, b[y].created_from]
        b.contains_key(x) && b.contains_key(y) && b[x].created_from is Some && b[x].created_from == b[y].created_from ==> x == y
    &&& forall|x: u128, y: u128|
        #![trigger j[x].created_from, j[y].created_from]
        j.contains_key(x) && j.contains_key(y) && j[x].created_from is Some && j[x].created_from == j[y].created_from ==> x == y
}

/// The mirror images of `r` are as the symmetry rule leaves them: the rule
/// holds, no mirror image is stale or symmetric itself, and the labels are
/// settled.
pub open spec fn mirrors_settled<B, C, J>(r: Ragdoll<B, C, J>) -> bool {
    let b = r.body_map();
    let j = r.joint_map();
    &&& symmetry_holds(r)
    &&& no_stale_body(b)
    &&& no_stale_joint(j)
    &&& forall|x: u128| #[trigger] b.contains_key(x) && b[x].created_from is Some ==> !b[x].use_symmetry
    &&& forall|x: u128| #[trigger] j.contains_key(x) && j[x].created_from is Some ==> !j[x].use_symmetry
    &&& labels_settled(r)
}

/// The ragdoll is as the symmetry rule leaves it: its mirror images are
/// settled, and every collider a source body lists has a mirror image.
pub open spec fn ragdoll_settled<B, C, J>(r: Ragdoll<B, C, J>) -> bool {
    let b = r.body_map();
    &&& mirrors_settled(r)
    &&& forall|bid: u128, k: int|
        #![trigger b[bid].colliders@[k]]
        b.contains_key(bid) && is_source_body(b[bid]) && 0 <= k < b[bid].colliders@.len()
            ==> has_mirror_image(r.collider_map(), b[bid].colliders@[k])
}

/// Each collider of `r` belongs to one body: every collider a body lists
/// exists, no collider is listed twice, and a mirror image of a collider is
/// listed only by a mirror image of the body that lists the collider.
pub open spec fn colliders_owned<B, C, J>(r: Ragdoll<B, C, J>) -> bool {
    let b = r.body_map();
    let c = r.collider_map();
    &&& forall|x: u128, k: int| #![trigger b[x].colliders@[k]]
        b.contains_key(x) && 0 <= k < b[x].colliders@.len() ==> c.contains_key(b[x].colliders@[k])
    &&& forall|x: u128, y: u128, k: int, l: int| #![trigger b[x].colliders@[k], b[y].colliders@[l]]
        b.contains_key(x) && b.contains_key(y) && 0 <= k < b[x].colliders@.len() && 0 <= l < b[y].colliders@.len()
            && b[x].colliders@[k] == b[y].colliders@[l] ==> x == y && k == l
    &&& forall|z: u128, k: int| #![trigger b[z].colliders@[k]]
        b.contains_key(z) && 0 <= k < b[z].colliders@.len() && c[b[z].colliders@[k]].created_from is Some
            ==> exists|w: u128| #[trigger] b.contains_key(w) && b[w].colliders@.contains(c[b[z].colliders@[k]].created_from->0)
                && b[z].created_from == Some(w)
}

/// The body mappings `m` are as the symmetry rule leaves them for the
/// bodies `bodies`: none mirrors the mapping of a body that is gone or not
/// symmetric, and every mirror image of a mapped source body is mapped.
pub open spec fn body_mappings_settled<B, X>(bodies: Map<u128, Body<B>>, m: Map<u128, BodyMapping<X>>) -> bool {
    &&& forall|x: u128| #[trigger] m.contains_key(x) ==> keeps_body_mapping(bodies, m[x])
    &&& forall|x: u128| #[trigger] bodies.contains_key(x) && mirrors_a_source(bodies, x) && m.contains_key(bodies[x].created_from->0)
        ==> m.contains_key(x)
}

/// Every bone that `h` can give for the bone of an original mapping of
/// `bones` already holds a mapping.
pub open spec fn flip_stays_within<W, H: Fn(&String) -> String>(bones: Map<Seq<char>, BoneMapping<W>>, h: H) -> bool {
    forall|s: String, t: String| #![trigger h.ensures((&s,), t)]
        is_original_mapping(bones, s@) && h.ensures((&s,), t) ==> bones.contains_key(t@)
}

/// No collider that a source body lists is also listed by a mirror image.
pub open spec fn source_colliders_unshared<B, C, J>(r: Ragdoll<B, C, J>) -> bool {
    forall|bid: u128, x: u128, c: u128|
        #![trigger r.body_map()[bid].colliders@.contains(c), r.body_map()[x].colliders@.contains(c)]
        r.body_map().contains_key(bid) && is_source_body(r.body_map()[bid]) && r.body_map().contains_key(x)
            && r.body_map()[x].created_from is Some && r.body_map()[bid].colliders@.contains(c)
            ==> !r.body_map()[x].colliders@.contains(c)
}

/// The assets the symmetry rule edits: a ragdoll and its bone map, each by
/// its id and with the handle that keeps it loaded.
pub struct SymmetryAssets<A> {
    pub ragdoll_id: UntypedAssetId,
    pub ragdoll: A,
    pub bone_map_id: UntypedAssetId,
    pub bone_map: A,
}

/// A request, queued by the symmetry rule, to recompute the offsets of the
/// mappings of a bone map.
#[derive(Debug)]
pub struct RecomputeMappingOffsets<A> {
    pub ragdoll_bone_map: A,
}

/// Brings a ragdoll and its bone map in line with the symmetry rule.
///
/// Every symmetric body that is not itself a mirror image gets its label
/// moved to the original side and a mirror image (the one it has, or a new
/// one): a mirrored copy with mirror images of its colliders, following the
/// mirrored bone. Symmetric joints likewise get mirror images, which join
/// the mirror images of their bodies, and every bone mapping gets one on
/// the bone that `flip` names; bone mappings are visited in storage order,
/// so where `flip` sends an original mapping onto the bone of another, or
/// two onto one bone, the later write wins. Then mirror images whose original is gone
/// or no longer symmetric are removed, bodies with the colliders they list.
/// The ragdoll and the bone map are marked as edited, and the recomputation
/// of the bone map's mapping offsets is queued.
#[verifier::rlimit(50)]
#[verifier::spinoff_prover]
pub fn recompute_ragdoll_symmetry<B, C: Clone, J, X: Clone, W, A: Clone, F, G, H, V>(
    ragdoll: &mut Ragdoll<B, C, J>,
    bone_map: &mut RagdollBoneMap<X, W>,
    assets: SymmetryAssets<A>,
    dirty: &mut DirtyAssets<A>,
    follow_ups: &mut PushQueue<RecomputeMappingOffsets<A>>,
    mirror_body: &F,
    mirror_joint: &G,
    flip: &H,
    mirror_weight: &V,
)
    where
        F: Fn(&B) -> B,
        G: Fn(&J) -> J,
        H: Fn(&String) -> String,
        V: Fn(&W) -> W,
    requires
        old(ragdoll).wf(),
        old(bone_map).wf(),
        old(dirty).wf(),
        sources_list_mirrorable_colliders(*old(ragdoll)),
        forall|p: &B| #[trigger] mirror_body.requires((p,)),
        forall|p: &J| #[trigger] mirror_joint.requires((p,)),
        forall|p: &String| #[trigger] flip.requires((p,)),
        forall|p: &W| #[trigger] mirror_weight.requires((p,)),
    ensures
        final(ragdoll).wf(),
        final(bone_map).wf(),
        final(ragdoll).suffixes == old(ragdoll).suffixes,
        forall|bid: u128| #[trigger] old(ragdoll).body_map().contains_key(bid) && is_source_body(old(ragdoll).body_map()[bid]) ==> {
            &&& final(ragdoll).body_map().contains_key(bid)
            &&& is_original_side_body(final(ragdoll).body_map()[bid], old(ragdoll).body_map()[bid], old(ragdoll).suffixes)
            &&& exists|mid: u128| has_mirror_body(
                old(ragdoll).body_map()[bid],
                mid,
                old(ragdoll).suffixes,
                *mirror_body,
                *flip,
                old(ragdoll).collider_map(),
                final(ragdoll).body_map(),
                final(ragdoll).collider_map(),
                old(bone_map).bodies_from_bones.view_map(),
                final(bone_map).bodies_from_bones.view_map(),
            ) && reuses_mirror(old(ragdoll).body_map(), bid, mid)
        },
        forall|jid: u128| #[trigger] old(ragdoll).joint_map().contains_key(jid) && is_source_joint(old(ragdoll).joint_map()[jid]) ==> {
            &&& final(ragdoll).joint_map().contains_key(jid)
            &&& is_original_side_joint(final(ragdoll).joint_map()[jid], old(ragdoll).joint_map()[jid], old(ragdoll).suffixes)
            &&& exists|mid: u128| mid != jid && final(ragdoll).joint_map().contains_key(mid) && is_joint_mirror_in(
                final(ragdoll).joint_map()[mid],
                old(ragdoll).joint_map()[jid],
                mid,
                old(ragdoll).suffixes,
                *mirror_joint,
                old(ragdoll).body_map(),
                final(ragdoll).body_map(),
            ) && reuses_mirror(old(ragdoll).joint_map(), jid, mid)
        },
        forall|x: u128| #[trigger] old(ragdoll).body_map().contains_key(x) && old(ragdoll).body_map()[x].created_from is None ==> final(ragdoll).body_map().contains_key(x),
        forall|c: u128| #[trigger] final(ragdoll).collider_map().contains_key(c) ==> !listed_by_removed(old(ragdoll).body_map(), final(ragdoll).body_map(), c),
        forall|c: u128| #[trigger] old(ragdoll).collider_map().contains_key(c) && !listed_by_removed(old(ragdoll).body_map(), final(ragdoll).body_map(), c)
            ==> final(ragdoll).collider_map().contains_key(c),
        forall|x: u128| #[trigger] old(ragdoll).body_map().contains_key(x) && is_stale_body(old(ragdoll).body_map(), x) ==> !final(ragdoll).body_map().contains_key(x),
        forall|x: u128| #[trigger] final(ragdoll).body_map().contains_key(x) && !old(ragdoll).body_map().contains_key(x) ==> (final(ragdoll).body_map()[x].created_from matches Some(s) && old(ragdoll).body_map().contains_key(s) && is_source_body(old(ragdoll).body_map()[s])),
        forall|x: u128| #[trigger] old(ragdoll).joint_map().contains_key(x) && old(ragdoll).joint_map()[x].created_from is None ==> final(ragdoll).joint_map().contains_key(x),
        forall|x: u128| #[trigger] old(ragdoll).joint_map().contains_key(x) && is_stale_joint(old(ragdoll).joint_map(), x) ==> !final(ragdoll).joint_map().contains_key(x),
        forall|x: u128| #[trigger] final(ragdoll).joint_map().contains_key(x) && !old(ragdoll).joint_map().contains_key(x) ==> (final(ragdoll).joint_map()[x].created_from matches Some(s) && old(ragdoll).joint_map().contains_key(s) && is_source_joint(old(ragdoll).joint_map()[s])),
        forall|x: u128| #[trigger] final(bone_map).bodies_from_bones.view_map().contains_key(x) ==> keeps_body_mapping(final(ragdoll).body_map(), final(bone_map).bodies_from_bones.view_map()[x]),
        forall|x: u128| #[trigger] final(ragdoll).body_map().contains_key(x) && old(ragdoll).body_map().contains_key(x) && !is_source_body(old(ragdoll).body_map()[x]) && !mirrors_a_source(old(ragdoll).body_map(), x) ==> final(ragdoll).body_map()[x] == old(ragdoll).body_map()[x],
        forall|x: u128| #[trigger] final(ragdoll).joint_map().contains_key(x) && old(ragdoll).joint_map().contains_key(x) && !is_source_joint(old(ragdoll).joint_map()[x]) && !mirrors_a_source_joint(old(ragdoll).joint_map(), x) ==> final(ragdoll).joint_map()[x] == old(ragdoll).joint_map()[x],
        forall|x: Seq<char>| #[trigger] old(bone_map).bones_from_bodies.view_map().contains_key(x) ==> final(bone_map).bones_from_bodies.view_map().contains_key(x),
        forall|x: Seq<char>| #[trigger] final(bone_map).bones_from_bodies.view_map().contains_key(x) ==> (old(bone_map).bones_from_bodies.view_map().contains_key(x) && final(bone_map).bones_from_bodies.view_map()[x] == old(bone_map).bones_from_bodies.view_map()[x]) || ({
            let m = final(bone_map).bones_from_bodies.view_map()[x];
            &&& m.created_from is Some
            &&& old(bone_map).bones_from_bodies.view_map().contains_key(m.created_from->0@)
            &&& old(bone_map).bones_from_bodies.view_map()[m.created_from->0@].created_from is None
            &&& m.created_from->0@ != x
            &&& is_bone_mapping_mirror_in(m, old(bone_map).bones_from_bodies.view_map()[m.created_from->0@], m.created_from->0@, x, *mirror_weight, old(ragdoll).body_map(), final(ragdoll).body_map())
        }),
        symmetry_holds(*final(ragdoll)),
        symmetry_holds(*old(ragdoll)) ==> forall|x: u128| #[trigger] final(ragdoll).body_map().contains_key(x) ==> old(ragdoll).body_map().contains_key(x),
        symmetry_holds(*old(ragdoll)) ==> forall|x: u128| #[trigger] final(ragdoll).joint_map().contains_key(x) ==> old(ragdoll).joint_map().contains_key(x),
        ragdoll_settled(*old(ragdoll)) ==> {
            &&& forall|x: u128| #[trigger] final(ragdoll).body_map().contains_key(x) <==> old(ragdoll).body_map().contains_key(x)
            &&& forall|x: u128| #[trigger] final(ragdoll).collider_map().contains_key(x) <==> old(ragdoll).collider_map().contains_key(x)
            &&& forall|x: u128| #[trigger] final(ragdoll).joint_map().contains_key(x) <==> old(ragdoll).joint_map().contains_key(x)
        },
        ragdoll_settled(*old(ragdoll)) && body_mappings_settled(old(ragdoll).body_map(), old(bone_map).bodies_from_bones.view_map())
            ==> forall|x: u128| #[trigger] final(bone_map).bodies_from_bones.view_map().contains_key(x) <==> old(bone_map).bodies_from_bones.view_map().contains_key(x),
        flip_stays_within(old(bone_map).bones_from_bodies.view_map(), *flip)
            ==> forall|x: Seq<char>| #[trigger] final(bone_map).bones_from_bodies.view_map().contains_key(x) <==> old(bone_map).bones_from_bodies.view_map().contains_key(x),
        labels_settled(*old(ragdoll)) ==> forall|x: u128| #[trigger] final(ragdoll).body_map().contains_key(x) && old(ragdoll).body_map().contains_key(x)
            ==> final(ragdoll).body_map()[x].label@ == old(ragdoll).body_map()[x].label@,
        labels_settled(*old(ragdoll)) ==> forall|x: u128| #[trigger] final(ragdoll).joint_map().contains_key(x) && old(ragdoll).joint_map().contains_key(x)
            ==> final(ragdoll).joint_map()[x].label@ == old(ragdoll).joint_map()[x].label@,
        source_colliders_unshared(*old(ragdoll)) ==> sources_list_mirrorable_colliders(*final(ragdoll)),
        collider_labels_follow(old(ragdoll).collider_map()) ==> forall|x: u128| #[trigger] final(ragdoll).collider_map().contains_key(x) && old(ragdoll).collider_map().contains_key(x)
            ==> final(ragdoll).collider_map()[x].label == old(ragdoll).collider_map()[x].label,
        mirror_images_plain(*old(ragdoll)) ==> mirrors_settled(*final(ragdoll)),
        mirror_images_plain(*old(ragdoll)) && colliders_owned(*old(ragdoll)) ==> ragdoll_settled(*final(ragdoll)),
        mirror_images_plain(*old(ragdoll)) ==> body_mappings_settled(final(ragdoll).body_map(), final(bone_map).bodies_from_bones.view_map()),
        final(dirty).wf(),
        final(dirty).view_map() == old(dirty).view_map().insert(assets.ragdoll_id, assets.ragdoll).insert(
            assets.bone_map_id,
            final(dirty).view_map()[assets.bone_map_id],
        ),
        cloned(assets.bone_map, final(dirty).view_map()[assets.bone_map_id]),
        final(follow_ups).0@.len() == old(follow_ups).0@.len() + 1,
        final(follow_ups).0@.take(old(follow_ups).0@.len() as int) == old(follow_ups).0@,
        final(follow_ups).0@.last().ragdoll_bone_map == assets.bone_map,
{
    dirty.add(assets.ragdoll_id, assets.ragdoll);
    let bone_map_handle = assets.bone_map.clone();
    dirty.add(assets.bone_map_id, bone_map_handle);
    let ghost r0 = *ragdoll;
    let ghost m0 = bone_map.bodies_from_bones.view_map();
    let ghost bb0 = bone_map.bones_from_bodies.view_map();
    let mut rev_body = reverse_index(&ragdoll.bodies);
    let mut rev_coll = reverse_index(&ragdoll.colliders);
    let mut rev_joint = reverse_index(&ragdoll.joints);
    let ghost orb = rev_body.view_map();
    let ghost orc = rev_coll.view_map();
    let ghost orj = rev_joint.view_map();
    mirror_bodies(ragdoll, &mut rev_body, &mut rev_coll, mirror_body);
    let ghost b1 = ragdoll.body_map();
    let ghost c1 = ragdoll.collider_map();
    mirror_joints(&mut ragdoll.joints, &mut rev_joint, &rev_body, &ragdoll.suffixes, mirror_joint);
    let ghost j1 = ragdoll.joint_map();
    mirror_body_mappings(&mut bone_map.bodies_from_bones, &ragdoll.bodies, &rev_body, flip);
    let ghost m1 = bone_map.bodies_from_bones.view_map();
    mirror_bone_mappings(&mut bone_map.bones_from_bodies, &rev_body, flip, mirror_weight);
    remove_stale_bodies(ragdoll);
    remove_stale_joints(&mut ragdoll.joints);
    remove_stale_body_mappings(&mut bone_map.bodies_from_bones, &ragdoll.bodies);
    proof {
        let rb = rev_body.view_map();
        let ob = r0.body_map();
        let b2 = ragdoll.body_map();
        let c2 = ragdoll.collider_map();
        let j2 = ragdoll.joint_map();
        let m2 = bone_map.bodies_from_bones.view_map();
        let bb2 = bone_map.bones_from_bodies.view_map();
        assert forall|s0: u128| #[trigger] ob.contains_key(s0) && is_source_body(ob[s0]) implies rb.contains_key(s0) && b1.contains_key(rb[s0]) && b1[rb[s0]].created_from == Some(s0) && b1.contains_key(s0) && is_source_body(b1[s0]) by {
            assert(body_mirrored(ob[s0], r0.suffixes, *mirror_body, r0.collider_map(), b1, c1, rb, rev_coll.view_map()));
        }
        assert forall|x: u128| #[trigger] b1.contains_key(x) && mirrors_a_source(b1, x) implies b2.contains_key(x) by {
        }
        assert forall|bid: u128| #[trigger] ob.contains_key(bid) && is_source_body(ob[bid]) implies {
            &&& b2.contains_key(bid)
            &&& is_original_side_body(b2[bid], ob[bid], r0.suffixes)
            &&& exists|mid: u128| has_mirror_body(ob[bid], mid, r0.suffixes, *mirror_body, *flip, r0.collider_map(), b2, c2, m0, m2)
                && reuses_mirror(ob, bid, mid)
        } by {
            let b = ob[bid];
            assert(body_mirrored(b, r0.suffixes, *mirror_body, r0.collider_map(), b1, c1, rb, rev_coll.view_map()));
            let mid = rb[bid];
            assert(b1.contains_key(bid) && b1[bid].created_from is None);
            assert(b2.contains_key(bid));
            assert(mirrors_a_source(b1, mid));
            assert(b2.contains_key(mid));
            assert(b2[mid] == b1[mid]);
            assert(is_source_body(b1[bid]));
            if m0.contains_key(bid) {
                assert(m1.contains_key(mid));
                assert(keeps_body_mapping(b2, m1[mid]));
                assert(m2.contains_key(mid));
            }
            assert forall|k: int| 0 <= k < b.colliders@.len() && c2.contains_key(#[trigger] b2[mid].colliders@[k]) implies {
                &&& c2[b2[mid].colliders@[k]].created_from == Some(b.colliders@[k])
                &&& r0.collider_map()[b.colliders@[k]].created_from is None ==> is_collider_mirror(c2[b2[mid].colliders@[k]], r0.collider_map()[b.colliders@[k]], b2[mid].colliders@[k])
            } by {
                assert(c1.contains_key(b1[mid].colliders@[k]));
            }
            assert(has_mirror_body(b, mid, r0.suffixes, *mirror_body, *flip, r0.collider_map(), b2, c2, m0, m2));
            if has_mirror_image(ob, bid) {
                let m = choose|m: u128| #[trigger] ob.contains_key(m) && ob[m].source() == Some(bid);
                assert(orb.contains_key(bid));
                assert(ob[orb[bid]].source() == Some(bid));
            } else {
                if orb.contains_key(bid) {
                    assert(ob.contains_key(orb[bid]) && ob[orb[bid]].source() == Some(bid));
                }
            }
            assert(reuses_mirror(ob, bid, mid));
        }
        let oj = r0.joint_map();
        assert forall|jid: u128| #[trigger] oj.contains_key(jid) && is_source_joint(oj[jid]) implies {
            &&& j2.contains_key(jid)
            &&& is_original_side_joint(j2[jid], oj[jid], r0.suffixes)
            &&& exists|mid: u128| mid != jid && j2.contains_key(mid) && is_joint_mirror_in(j2[mid], oj[jid], mid, r0.suffixes, *mirror_joint, ob, b2)
                && reuses_mirror(oj, jid, mid)
        } by {
            let j = oj[jid];
            assert(joint_mirrored(j, r0.suffixes, *mirror_joint, rb, j1, rev_joint.view_map()));
            let mid = rev_joint.view_map()[jid];
            assert(j1.contains_key(jid) && j1[jid].created_from is None);
            assert(mirrors_a_source_joint(j1, mid));
            assert(j2.contains_key(mid));
            lemma_mirrored_ref(j.body1, rb, orb, ob, b1, b2);
            lemma_mirrored_ref(j.body2, rb, orb, ob, b1, b2);
            assert(is_joint_mirror_in(j2[mid], j, mid, r0.suffixes, *mirror_joint, ob, b2));
            if has_mirror_image(oj, jid) {
                let m = choose|m: u128| #[trigger] oj.contains_key(m) && oj[m].source() == Some(jid);
                assert(orj.contains_key(jid));
                assert(oj[orj[jid]].source() == Some(jid));
            } else {
                if orj.contains_key(jid) {
                    assert(oj.contains_key(orj[jid]) && oj[orj[jid]].source() == Some(jid));
                }
            }
            assert(reuses_mirror(oj, jid, mid));
        }
        assert forall|x: u128| #[trigger] ob.contains_key(x) && is_stale_body(ob, x) implies !b2.contains_key(x) by {
            let s0 = ob[x].created_from->0;
            if b1[x] != ob[x] {
                if !is_source_body(ob[x]) {
                    assert(is_source_body(ob[s0]));
                }
            }
            assert(b1[x] == ob[x]);
            if b1.contains_key(s0) {
                if !ob.contains_key(s0) {
                    let s1 = b1[s0].created_from->0;
                    assert(rb[s1] == s0);
                    assert(body_mirrored(ob[s1], r0.suffixes, *mirror_body, r0.collider_map(), b1, c1, rb, rev_coll.view_map()));
                } else if b1[s0] != ob[s0] {
                    if !is_source_body(ob[s0]) {
                        let s1 = ob[s0].created_from->0;
                        assert(body_mirrored(ob[s1], r0.suffixes, *mirror_body, r0.collider_map(), b1, c1, rb, rev_coll.view_map()));
                    }
                }
            }
            assert(is_stale_body(b1, x));
        }
        assert forall|x: u128| #[trigger] oj.contains_key(x) && is_stale_joint(oj, x) implies !j2.contains_key(x) by {
            let s0 = oj[x].created_from->0;
            assert(j1[x] == oj[x]);
            if j1.contains_key(s0) {
                if !oj.contains_key(s0) {
                    let s1 = j1[s0].created_from->0;
                    assert(joint_mirrored(oj[s1], r0.suffixes, *mirror_joint, rb, j1, rev_joint.view_map()));
                } else if j1[s0] != oj[s0] {
                    if !is_source_joint(oj[s0]) {
                        let s1 = oj[s0].created_from->0;
                        assert(joint_mirrored(oj[s1], r0.suffixes, *mirror_joint, rb, j1, rev_joint.view_map()));
                    }
                }
            }
            assert(is_stale_joint(j1, x));
        }
        assert forall|x: Seq<char>| #[trigger] bb2.contains_key(x) implies (bb0.contains_key(x) && bb2[x] == bb0[x]) || ({
            let m = bb2[x];
            &&& m.created_from is Some
            &&& bb0.contains_key(m.created_from->0@)
            &&& bb0[m.created_from->0@].created_from is None
            &&& m.created_from->0@ != x
            &&& is_bone_mapping_mirror_in(m, bb0[m.created_from->0@], m.created_from->0@, x, *mirror_weight, ob, b2)
        }) by {
            if !(bb0.contains_key(x) && bb2[x] == bb0[x]) {
                let m = bb2[x];
                let o = bb0[m.created_from->0@];
                assert forall|k: int| 0 <= k < m.bodies@.len() implies is_mirrored_body_ref((#[trigger] m.bodies@[k]).body, o.bodies@[k].body, ob, b2) && mirror_weight.ensures((&o.bodies@[k].rest,), m.bodies@[k].rest) by {
                    lemma_mirrored_ref(o.bodies@[k].body, rb, orb, ob, b1, b2);
                }
            }
        }
        assert forall|x: u128| #[trigger] b2.contains_key(x) && is_source_body(b2[x])
            implies exists|m: u128| b2.contains_key(m) && b2[m].created_from == Some(x) by {
            assert(b1.contains_key(x) && b2[x] == b1[x]);
            assert(ob.contains_key(x) && is_source_body(ob[x]));
            let mid = choose|mid: u128| has_mirror_body(ob[x], mid, r0.suffixes, *mirror_body, *flip, r0.collider_map(), b2, c2, m0, m2);
            assert(b2.contains_key(mid) && b2[mid].created_from == Some(x));
        }
        assert forall|x: u128| #[trigger] j2.contains_key(x) && is_source_joint(j2[x])
            implies exists|m: u128| j2.contains_key(m) && j2[m].created_from == Some(x) by {
            assert(j1.contains_key(x) && j2[x] == j1[x]);
            if !oj.contains_key(x) {
                assert(j1[x].created_from is Some);
            } else if j1[x] != oj[x] && !is_source_joint(oj[x]) {
                let s0 = oj[x].created_from->0;
                assert(joint_mirrored(oj[s0], r0.suffixes, *mirror_joint, rb, j1, rev_joint.view_map()));
                assert(!j1[x].use_symmetry);
            }
            assert(oj.contains_key(x) && is_source_joint(oj[x]));
            let mid = choose|mid: u128| mid != x && j2.contains_key(mid) && is_joint_mirror_in(j2[mid], oj[x], mid, r0.suffixes, *mirror_joint, ob, b2);
            assert(j2.contains_key(mid) && j2[mid].created_from == Some(x));
        }
        if symmetry_holds(r0) {
            assert forall|x: u128| #[trigger] b2.contains_key(x) implies ob.contains_key(x) by {
                assert(b1.contains_key(x));
                if !ob.contains_key(x) {
                    let s0 = b1[x].created_from->0;
                    assert(ob.contains_key(s0) && is_source_body(ob[s0]) && rb[s0] == x);
                    let m = choose|m: u128| ob.contains_key(m) && ob[m].created_from == Some(s0);
                    assert(ob[m].source() is Some);
                    assert(orb.contains_key(s0));
                }
            }
            assert forall|x: u128| #[trigger] j2.contains_key(x) implies oj.contains_key(x) by {
                assert(j1.contains_key(x));
                if !oj.contains_key(x) {
                    let s0 = j1[x].created_from->0;
                    assert(oj.contains_key(s0) && is_source_joint(oj[s0]) && rev_joint.view_map()[s0] == x);
                    let m = choose|m: u128| oj.contains_key(m) && oj[m].created_from == Some(s0);
                    assert(oj[m].source() is Some);
                    assert(orj.contains_key(s0));
                }
            }
        }
        if ragdoll_settled(r0) {
            let oc = r0.collider_map();
            // no body is added
            assert forall|x: u128| #[trigger] b1.contains_key(x) implies ob.contains_key(x) by {
                if !ob.contains_key(x) {
                    let s0 = b1[x].created_from->0;
                    assert(ob.contains_key(s0) && is_source_body(ob[s0]) && rb[s0] == x);
                    let m = choose|m: u128| ob.contains_key(m) && ob[m].created_from == Some(s0);
                    assert(ob[m].source() is Some);
                    assert(orb.contains_key(s0));
                }
            }
            // none is stale after mirroring, so none is removed
            assert forall|x: u128| #[trigger] b1.contains_key(x) implies !is_stale_body(b1, x) by {
                assert(ob.contains_key(x));
                if b1[x] == ob[x] {
                    if let Some(s0) = ob[x].created_from {
                        assert(!is_stale_body(ob, x));
                        assert(ob.contains_key(s0) && ob[s0].use_symmetry);
                        assert(ob[s0].created_from is None);
                        assert(body_mirrored(ob[s0], r0.suffixes, *mirror_body, oc, b1, c1, rb, rev_coll.view_map()));
                    }
                } else if !is_source_body(ob[x]) {
                    let s0 = ob[x].created_from->0;
                    assert(body_mirrored(ob[s0], r0.suffixes, *mirror_body, oc, b1, c1, rb, rev_coll.view_map()));
                }
            }
            assert(b2 =~= b1);
            assert forall|x: u128| #[trigger] b2.contains_key(x) <==> ob.contains_key(x) by {}
            // no joint is added or removed
            assert forall|x: u128| #[trigger] j1.contains_key(x) implies oj.contains_key(x) by {
                if !oj.contains_key(x) {
                    let s0 = j1[x].created_from->0;
                    assert(oj.contains_key(s0) && is_source_joint(oj[s0]) && rev_joint.view_map()[s0] == x);
                    let m = choose|m: u128| oj.contains_key(m) && oj[m].created_from == Some(s0);
                    assert(oj[m].source() is Some);
                    assert(orj.contains_key(s0));
                }
            }
            assert forall|x: u128| #[trigger] j1.contains_key(x) implies !is_stale_joint(j1, x) by {
                assert(oj.contains_key(x));
                if j1[x] == oj[x] {
                    if let Some(s0) = oj[x].created_from {
                        assert(!is_stale_joint(oj, x));
                        assert(oj.contains_key(s0) && oj[s0].use_symmetry);
                        assert(oj[s0].created_from is None);
                        assert(joint_mirrored(oj[s0], r0.suffixes, *mirror_joint, rb, j1, rev_joint.view_map()));
                    }
                } else if !is_source_joint(oj[x]) {
                    let s0 = oj[x].created_from->0;
                    assert(joint_mirrored(oj[s0], r0.suffixes, *mirror_joint, rb, j1, rev_joint.view_map()));
                }
            }
            assert(j2 =~= j1);
            assert forall|x: u128| #[trigger] j2.contains_key(x) <==> oj.contains_key(x) by {}
            // no collider is added or removed
            assert(listed_colliders_indexed(ob, orc)) by {
                assert forall|bid: u128, k: int|
                    #![trigger ob[bid].colliders@[k]]
                    ob.contains_key(bid) && is_source_body(ob[bid]) && 0 <= k < ob[bid].colliders@.len()
                        implies orc.contains_key(ob[bid].colliders@[k]) by {
                    let c = ob[bid].colliders@[k];
                    let m = choose|m: u128| #[trigger] oc.contains_key(m) && oc[m].source() == Some(c);
                    assert(oc[m].source() is Some);
                }
            }
            assert forall|x: u128| #[trigger] c2.contains_key(x) <==> oc.contains_key(x) by {
                if oc.contains_key(x) {
                    assert(c1.contains_key(x));
                    assert(!listed_by_removed(b1, b2, x));
                }
            }
            // no body mapping is added or removed
            if body_mappings_settled(ob, m0) {
                let oc2 = r0.collider_map();
                let rc = rev_coll.view_map();
                assert forall|x: u128| #[trigger] m1.contains_key(x) implies m0.contains_key(x) by {
                    if !m0.contains_key(x) {
                        let bid = choose|bid: u128| m0.contains_key(bid) && b1.contains_key(bid) && is_source_body(b1[bid]) && rb[bid] == x;
                        assert(ob.contains_key(bid) && is_source_body(ob[bid]));
                        assert(body_mirrored(ob[bid], r0.suffixes, *mirror_body, oc2, b1, c1, rb, rc));
                        assert(b1.contains_key(x) && b1[x].created_from == Some(bid));
                        assert(ob.contains_key(x));
                        if b1[x] != ob[x] {
                            if is_source_body(ob[x]) {
                                assert(body_mirrored(ob[x], r0.suffixes, *mirror_body, oc2, b1, c1, rb, rc));
                            } else {
                                let s0 = ob[x].created_from->0;
                                assert(body_mirrored(ob[s0], r0.suffixes, *mirror_body, oc2, b1, c1, rb, rc));
                            }
                        }
                        assert(mirrors_a_source(ob, x));
                    }
                }
                assert forall|x: u128| #[trigger] m2.contains_key(x) <==> m0.contains_key(x) by {
                    if m0.contains_key(x) {
                        assert(m1.contains_key(x));
                        if m1[x] == m0[x] {
                            assert(keeps_body_mapping(ob, m0[x]));
                            if m0[x].created_from is Some {
                                let s0 = m0[x].created_from->0;
                                assert(b1.contains_key(s0));
                                if b1[s0] != ob[s0] && !is_source_body(ob[s0]) {
                                    let s1 = ob[s0].created_from->0;
                                    assert(body_mirrored(ob[s1], r0.suffixes, *mirror_body, oc2, b1, c1, rb, rc));
                                }
                            }
                        } else {
                            let bid = choose|bid: u128| m0.contains_key(bid) && b1.contains_key(bid) && is_source_body(b1[bid]) && rb[bid] == x;
                            assert(is_body_mapping_mirror(m1[x], m0[bid], bid, x, *flip));
                        }
                        assert(keeps_body_mapping(b2, m1[x]));
                    }
                }
            }
        }
        if mirror_images_plain(r0) {
            let rj = rev_joint.view_map();
            // after mirroring, no mirror image is symmetric
            assert forall|x: u128| #[trigger] b1.contains_key(x) && b1[x].created_from is Some implies !b1[x].use_symmetry by {
                if !ob.contains_key(x) {
                    let s0 = b1[x].created_from->0;
                    assert(body_mirrored(ob[s0], r0.suffixes, *mirror_body, r0.collider_map(), b1, c1, rb, rev_coll.view_map()));
                } else if b1[x] != ob[x] {
                    if is_source_body(ob[x]) {
                        assert(body_mirrored(ob[x], r0.suffixes, *mirror_body, r0.collider_map(), b1, c1, rb, rev_coll.view_map()));
                    } else {
                        let s0 = ob[x].created_from->0;
                        assert(body_mirrored(ob[s0], r0.suffixes, *mirror_body, r0.collider_map(), b1, c1, rb, rev_coll.view_map()));
                    }
                }
            }
            assert forall|x: u128| #[trigger] j1.contains_key(x) && j1[x].created_from is Some implies !j1[x].use_symmetry by {
                if !oj.contains_key(x) {
                    let s0 = j1[x].created_from->0;
                    assert(joint_mirrored(oj[s0], r0.suffixes, *mirror_joint, rb, j1, rev_joint.view_map()));
                } else if j1[x] != oj[x] {
                    if is_source_joint(oj[x]) {
                        assert(joint_mirrored(oj[x], r0.suffixes, *mirror_joint, rb, j1, rev_joint.view_map()));
                    } else {
                        let s0 = oj[x].created_from->0;
                        assert(joint_mirrored(oj[s0], r0.suffixes, *mirror_joint, rb, j1, rev_joint.view_map()));
                    }
                }
            }
            // after mirroring, each mirror image of a source is the one the reverse index names
            assert forall|x: u128| #[trigger] b1.contains_key(x) && mirrors_a_source(b1, x) implies rb[b1[x].created_from->0] == x by {
                let s0 = b1[x].created_from->0;
                assert(ob.contains_key(s0) && is_source_body(ob[s0]));
                assert(body_mirrored(ob[s0], r0.suffixes, *mirror_body, r0.collider_map(), b1, c1, rb, rev_coll.view_map()));
                if ob.contains_key(x) {
                    if b1[x] == ob[x] {
                        assert(ob[x].source() == Some(s0));
                        assert(orb.contains_key(s0));
                        assert(ob[orb[s0]].source() == Some(s0));
                        assert(ob[orb[s0]].created_from == ob[x].created_from);
                    } else if is_source_body(ob[x]) {
                        assert(body_mirrored(ob[x], r0.suffixes, *mirror_body, r0.collider_map(), b1, c1, rb, rev_coll.view_map()));
                    } else {
                        let s1 = ob[x].created_from->0;
                        assert(body_mirrored(ob[s1], r0.suffixes, *mirror_body, r0.collider_map(), b1, c1, rb, rev_coll.view_map()));
                    }
                }
            }
            assert forall|x: u128| #[trigger] j1.contains_key(x) && mirrors_a_source_joint(j1, x) implies rj[j1[x].created_from->0] == x by {
                let s0 = j1[x].created_from->0;
                assert(oj.contains_key(s0)) by {
                    if !oj.contains_key(s0) {
                        let s1 = j1[s0].created_from->0;
                        assert(joint_mirrored(oj[s1], r0.suffixes, *mirror_joint, rb, j1, rev_joint.view_map()));
                    }
                }
                assert(is_source_joint(oj[s0])) by {
                    if j1[s0] != oj[s0] && !is_source_joint(oj[s0]) {
                        let s1 = oj[s0].created_from->0;
                        assert(joint_mirrored(oj[s1], r0.suffixes, *mirror_joint, rb, j1, rev_joint.view_map()));
                    }
                }
                assert(joint_mirrored(oj[s0], r0.suffixes, *mirror_joint, rb, j1, rev_joint.view_map()));
                if oj.contains_key(x) {
                    if j1[x] == oj[x] {
                        assert(oj[x].source() == Some(s0));
                        assert(orj.contains_key(s0));
                        assert(oj[orj[s0]].source() == Some(s0));
                        assert(oj[orj[s0]].created_from == oj[x].created_from);
                    } else if is_source_joint(oj[x]) {
                        assert(joint_mirrored(oj[x], r0.suffixes, *mirror_joint, rb, j1, rev_joint.view_map()));
                    } else {
                        let s1 = oj[x].created_from->0;
                        assert(joint_mirrored(oj[s1], r0.suffixes, *mirror_joint, rb, j1, rev_joint.view_map()));
                    }
                }
            }
            // what the cleanup keeps of mirror images mirrors a source
            assert forall|x: u128| #[trigger] b2.contains_key(x) && b2[x].created_from is Some implies mirrors_a_source(b1, x) && b2.contains_key(b1[x].created_from->0) by {
                assert(b1.contains_key(x) && b2[x] == b1[x]);
                let s0 = b1[x].created_from->0;
                assert(!is_stale_body(b1, x));
                assert(b1.contains_key(s0) && b1[s0].use_symmetry);
                assert(b1[s0].created_from is None);
            }
            assert forall|x: u128| #[trigger] j2.contains_key(x) && j2[x].created_from is Some implies mirrors_a_source_joint(j1, x) && j2.contains_key(j1[x].created_from->0) by {
                assert(j1.contains_key(x) && j2[x] == j1[x]);
                let s0 = j1[x].created_from->0;
                assert(!is_stale_joint(j1, x));
                assert(j1.contains_key(s0) && j1[s0].use_symmetry);
                assert(j1[s0].created_from is None);
            }
            let fr = *ragdoll;
            assert(no_stale_body(b2)) by {
                assert forall|x: u128| #[trigger] b2.contains_key(x) implies !is_stale_body(b2, x) by {
                    if b2[x].created_from is Some {
                        let s0 = b1[x].created_from->0;
                        assert(b2[s0] == b1[s0]);
                    }
                }
            }
            assert(no_stale_joint(j2)) by {
                assert forall|x: u128| #[trigger] j2.contains_key(x) implies !is_stale_joint(j2, x) by {
                    if j2[x].created_from is Some {
                        let s0 = j1[x].created_from->0;
                        assert(j2[s0] == j1[s0]);
                    }
                }
            }
            assert forall|x: u128| #[trigger] b2.contains_key(x) && b2[x].created_from is Some implies !b2[x].use_symmetry by {
                assert(b1.contains_key(x) && b2[x] == b1[x]);
            }
            assert forall|x: u128| #[trigger] j2.contains_key(x) && j2[x].created_from is Some implies !j2[x].use_symmetry by {
                assert(j1.contains_key(x) && j2[x] == j1[x]);
            }
            assert(labels_settled(fr)) by {
                assert forall|x: u128| #[trigger] b2.contains_key(x) && is_source_body(b2[x]) implies b2[x].label@ == original_side_label(b2[x].label@, r0.suffixes) by {
                    assert(b1.contains_key(x) && b2[x] == b1[x]);
                    assert(ob.contains_key(x) && is_source_body(ob[x]));
                    assert(body_mirrored(ob[x], r0.suffixes, *mirror_body, r0.collider_map(), b1, c1, rb, rev_coll.view_map()));
                    law_original_side_label_is_stable(ob[x].label@, r0.suffixes);
                }
                assert forall|x: u128| #[trigger] b2.contains_key(x) && mirrors_a_source(b2, x) implies b2[x].label@ == mirror_side_label(b2[b2[x].created_from->0].label@, r0.suffixes) by {
                    let s0 = b2[x].created_from->0;
                    assert(b1.contains_key(x) && b2[x] == b1[x]);
                    assert(b2[s0] == b1[s0]);
                    assert(mirrors_a_source(b1, x));
                    assert(rb[s0] == x);
                    assert(ob.contains_key(s0) && is_source_body(ob[s0]));
                    assert(body_mirrored(ob[s0], r0.suffixes, *mirror_body, r0.collider_map(), b1, c1, rb, rev_coll.view_map()));
                    law_original_side_label_is_stable(ob[s0].label@, r0.suffixes);
                }
                assert forall|x: u128| #[trigger] j2.contains_key(x) && is_source_joint(j2[x]) implies j2[x].label@ == original_side_label(j2[x].label@, r0.suffixes) by {
                    assert(j1.contains_key(x) && j2[x] == j1[x]);
                    assert(oj.contains_key(x)) by {
                        if !oj.contains_key(x) {
                            let s1 = j1[x].created_from->0;
                            assert(joint_mirrored(oj[s1], r0.suffixes, *mirror_joint, rb, j1, rev_joint.view_map()));
                        }
                    }
                    assert(is_source_joint(oj[x])) by {
                        if j1[x] != oj[x] && !is_source_joint(oj[x]) {
                            let s1 = oj[x].created_from->0;
                            assert(joint_mirrored(oj[s1], r0.suffixes, *mirror_joint, rb, j1, rev_joint.view_map()));
                        }
                    }
                    assert(joint_mirrored(oj[x], r0.suffixes, *mirror_joint, rb, j1, rev_joint.view_map()));
                    law_original_side_label_is_stable(oj[x].label@, r0.suffixes);
                }
                assert forall|x: u128| #[trigger] j2.contains_key(x) && mirrors_a_source_joint(j2, x) implies j2[x].label@ == mirror_side_label(j2[j2[x].created_from->0].label@, r0.suffixes) by {
                    let s0 = j2[x].created_from->0;
                    assert(j1.contains_key(x) && j2[x] == j1[x]);
                    assert(j2[s0] == j1[s0]);
                    assert(mirrors_a_source_joint(j1, x));
                    assert(rj[s0] == x);
                    assert(oj.contains_key(s0)) by {
                        if !oj.contains_key(s0) {
                            let s1 = j1[s0].created_from->0;
                            assert(joint_mirrored(oj[s1], r0.suffixes, *mirror_joint, rb, j1, rev_joint.view_map()));
                        }
                    }
                    assert(is_source_joint(oj[s0])) by {
                        if j1[s0] != oj[s0] && !is_source_joint(oj[s0]) {
                            let s1 = oj[s0].created_from->0;
                            assert(joint_mirrored(oj[s1], r0.suffixes, *mirror_joint, rb, j1, rev_joint.view_map()));
                        }
                    }
                    assert(joint_mirrored(oj[s0], r0.suffixes, *mirror_joint, rb, j1, rev_joint.view_map()));
                    law_original_side_label_is_stable(oj[s0].label@, r0.suffixes);
                }
            }
            if colliders_owned(r0) {
                let oc4 = r0.collider_map();
                assert forall|bid: u128, k: int|
                    #![trigger b2[bid].colliders@[k]]
                    b2.contains_key(bid) && is_source_body(b2[bid]) && 0 <= k < b2[bid].colliders@.len()
                        implies has_mirror_image(c2, b2[bid].colliders@[k]) by {
                    assert(b1.contains_key(bid) && b2[bid] == b1[bid]);
                    assert(ob.contains_key(bid) && is_source_body(ob[bid]));
                    assert(body_mirrored(ob[bid], r0.suffixes, *mirror_body, oc4, b1, c1, rb, rev_coll.view_map()));
                    let c = ob[bid].colliders@[k];
                    assert(b2[bid].colliders@[k] == c);
                    let mid = rb[bid];
                    let y = b1[mid].colliders@[k];
                    assert(c1.contains_key(y) && c1[y].created_from == Some(c));
                    if listed_by_removed(b1, b2, y) {
                        let z = choose|z: u128| #[trigger] b1.contains_key(z) && !b2.contains_key(z) && b1[z].colliders@.contains(y);
                        assert(ob.contains_key(z) && b1[z] == ob[z]);
                        let l = choose|l: int| 0 <= l < ob[z].colliders@.len() && ob[z].colliders@[l] == y;
                        assert(oc4.contains_key(ob[z].colliders@[l]));
                        assert(oc4[y].created_from == Some(c));
                        let w = choose|w: u128| #[trigger] ob.contains_key(w) && ob[w].colliders@.contains(oc4[ob[z].colliders@[l]].created_from->0) && ob[z].created_from == Some(w);
                        let l2 = choose|l2: int| 0 <= l2 < ob[w].colliders@.len() && ob[w].colliders@[l2] == c;
                        assert(ob[w].colliders@[l2] == ob[bid].colliders@[k]);
                        assert(w == bid);
                        assert(mirrors_a_source(b1, z));
                        assert(false);
                    }
                    assert(c2.contains_key(y));
                    assert(c2[y].source() == Some(c));
                }
            }
            assert forall|x: u128| #[trigger] b2.contains_key(x) && mirrors_a_source(b2, x) && m2.contains_key(b2[x].created_from->0) implies m2.contains_key(x) by {
                let s0 = b2[x].created_from->0;
                assert(mirrors_a_source(b1, x));
                assert(rb[s0] == x);
                assert(b2[s0] == b1[s0]);
                assert(m1.contains_key(s0));
                if !m0.contains_key(s0) {
                    let bid = choose|bid: u128| m0.contains_key(bid) && b1.contains_key(bid) && is_source_body(b1[bid]) && rb[bid] == s0;
                    assert(ob.contains_key(bid) && is_source_body(ob[bid]));
                    assert(body_mirrored(ob[bid], r0.suffixes, *mirror_body, r0.collider_map(), b1, c1, rb, rev_coll.view_map()));
                }
                assert(is_body_mapping_mirror(m1[x], m0[s0], s0, x, *flip));
                assert(keeps_body_mapping(b2, m1[x]));
            }
        }
        if flip_stays_within(bb0, *flip) {
            assert forall|x: Seq<char>| #[trigger] bb2.contains_key(x) <==> bb0.contains_key(x) by {
                if bb2.contains_key(x) && !bb0.contains_key(x) {
                    let m = bb2[x];
                    let (s0, t0) = choose|s0: String, t0: String| #![trigger flip.ensures((&s0,), t0)] s0@ == m.created_from->0@ && flip.ensures((&s0,), t0) && t0@ == x;
                    assert(is_original_mapping(bb0, s0@));
                }
            }
        }
        if labels_settled(r0) {
            assert forall|x: u128| #[trigger] b2.contains_key(x) && ob.contains_key(x) implies b2[x].label@ == ob[x].label@ by {
                assert(b1.contains_key(x) && b2[x] == b1[x]);
                if b1[x] != ob[x] {
                    if is_source_body(ob[x]) {
                        assert(body_mirrored(ob[x], r0.suffixes, *mirror_body, r0.collider_map(), b1, c1, rb, rev_coll.view_map()));
                    } else {
                        let s0 = ob[x].created_from->0;
                        assert(body_mirrored(ob[s0], r0.suffixes, *mirror_body, r0.collider_map(), b1, c1, rb, rev_coll.view_map()));
                        assert(mirrors_a_source(ob, x));
                    }
                }
            }
            assert forall|x: u128| #[trigger] j2.contains_key(x) && oj.contains_key(x) implies j2[x].label@ == oj[x].label@ by {
                assert(j1.contains_key(x) && j2[x] == j1[x]);
                if j1[x] != oj[x] {
                    if is_source_joint(oj[x]) {
                        assert(joint_mirrored(oj[x], r0.suffixes, *mirror_joint, rb, j1, rev_joint.view_map()));
                    } else {
                        let s0 = oj[x].created_from->0;
                        assert(joint_mirrored(oj[s0], r0.suffixes, *mirror_joint, rb, j1, rev_joint.view_map()));
                        assert(mirrors_a_source_joint(oj, x));
                    }
                }
            }
        }
        // a body the rule removes is one that mirroring left as it was
        assert forall|x: u128| #[trigger] b1.contains_key(x) && !b2.contains_key(x) implies ob.contains_key(x) && b1[x] == ob[x] by {
            assert(b1[x].created_from is Some);
            if !ob.contains_key(x) {
                let s0 = b1[x].created_from->0;
                assert(body_mirrored(ob[s0], r0.suffixes, *mirror_body, r0.collider_map(), b1, c1, rb, rev_coll.view_map()));
                assert(mirrors_a_source(b1, x));
            } else if b1[x] != ob[x] {
                if is_source_body(ob[x]) {
                    assert(body_mirrored(ob[x], r0.suffixes, *mirror_body, r0.collider_map(), b1, c1, rb, rev_coll.view_map()));
                } else {
                    let s0 = ob[x].created_from->0;
                    assert(body_mirrored(ob[s0], r0.suffixes, *mirror_body, r0.collider_map(), b1, c1, rb, rev_coll.view_map()));
                    assert(mirrors_a_source(b1, x));
                }
            }
        }
        assert forall|c: u128| listed_by_removed(b1, b2, c) <==> listed_by_removed(ob, b2, c) by {
            if listed_by_removed(b1, b2, c) {
                let x = choose|x: u128| #[trigger] b1.contains_key(x) && !b2.contains_key(x) && b1[x].colliders@.contains(c);
                assert(ob.contains_key(x) && !b2.contains_key(x) && ob[x].colliders@.contains(c));
            }
            if listed_by_removed(ob, b2, c) {
                let x = choose|x: u128| #[trigger] ob.contains_key(x) && !b2.contains_key(x) && ob[x].colliders@.contains(c);
                assert(b1.contains_key(x));
                assert(b1[x] == ob[x]);
                assert(b1.contains_key(x) && !b2.contains_key(x) && b1[x].colliders@.contains(c));
            }
        }
        assert forall|c: u128| #[trigger] c2.contains_key(c) implies !listed_by_removed(ob, b2, c) by {
            assert(!listed_by_removed(b1, b2, c));
        }
        assert forall|c: u128| #[trigger] r0.collider_map().contains_key(c) && !listed_by_removed(ob, b2, c) implies c2.contains_key(c) by {
            assert(c1.contains_key(c));
            assert(!listed_by_removed(b1, b2, c));
        }
        if source_colliders_unshared(r0) {
            let oc = r0.collider_map();
            assert forall|bid: u128| #[trigger] b2.contains_key(bid) && is_source_body(b2[bid]) implies mirrorable_colliders(b2[bid].colliders@, c2) by {
                assert(b1.contains_key(bid) && b2[bid] == b1[bid]);
                assert(ob.contains_key(bid) && is_source_body(ob[bid]));
                assert(body_mirrored(ob[bid], r0.suffixes, *mirror_body, oc, b1, c1, rb, rev_coll.view_map()));
                let cids = ob[bid].colliders@;
                assert(b1[bid].colliders@ == cids);
                assert(mirrorable_colliders(cids, oc));
                assert forall|k: int| 0 <= k < cids.len() implies c2.contains_key(#[trigger] cids[k]) && c2[cids[k]].created_from != Some(cids[k]) by {
                    let c = cids[k];
                    assert(oc.contains_key(c));
                    assert(c1.contains_key(c) && c1[c].created_from == oc[c].created_from);
                    if listed_by_removed(b1, b2, c) {
                        let x = choose|x: u128| #[trigger] b1.contains_key(x) && !b2.contains_key(x) && b1[x].colliders@.contains(c);
                        assert(b1[x].created_from is Some);
                        if !ob.contains_key(x) {
                            let s0 = b1[x].created_from->0;
                            assert(body_mirrored(ob[s0], r0.suffixes, *mirror_body, oc, b1, c1, rb, rev_coll.view_map()));
                            assert(mirrors_a_source(b1, x));
                        } else if b1[x] != ob[x] {
                            if is_source_body(ob[x]) {
                                assert(body_mirrored(ob[x], r0.suffixes, *mirror_body, oc, b1, c1, rb, rev_coll.view_map()));
                            } else {
                                let s0 = ob[x].created_from->0;
                                assert(body_mirrored(ob[s0], r0.suffixes, *mirror_body, oc, b1, c1, rb, rev_coll.view_map()));
                                assert(mirrors_a_source(b1, x));
                            }
                        }
                        assert(b1[x] == ob[x]);
                        assert(cids.contains(c)) by {
                            assert(cids[k] == c);
                        }
                        assert(ob[x].colliders@.contains(c));
                        assert(false);
                    }
                    assert(c2.contains_key(c) && c2[c] == c1[c]);
                }
            }
        }
        if flip_separates_originals(bb0, *flip) {
            assert forall|p: Seq<char>| #[trigger] is_original_mapping(bb0, p) implies bone_mapping_mirrored_in(p, bb0[p], bb2, *flip, *mirror_weight, ob, b2) by {
                assert(bone_mapping_mirrored(p, bb0[p], bb2, rb, *flip, *mirror_weight));
                let (s0, t0) = choose|s0: String, t0: String| #![trigger flip.ensures((&s0,), t0)] s0@ == p && flip.ensures((&s0,), t0) && (t0@ == p || (bb2.contains_key(t0@) && is_bone_mapping_mirror(bb2[t0@], bb0[p], p, t0@, rb, *mirror_weight)));
                if t0@ != p {
                    let m = bb2[t0@];
                    let o = bb0[p];
                    assert forall|k: int| 0 <= k < m.bodies@.len() implies is_mirrored_body_ref((#[trigger] m.bodies@[k]).body, o.bodies@[k].body, ob, b2) && mirror_weight.ensures((&o.bodies@[k].rest,), m.bodies@[k].rest) by {
                        lemma_mirrored_ref(o.bodies@[k].body, rb, orb, ob, b1, b2);
                    }
                }
                assert(flip.ensures((&s0,), t0));
            }
        }
    }
    follow_ups.push(RecomputeMappingOffsets { ragdoll_bone_map: assets.bone_map });
}

} // verus!
