//! Saving edited assets: the set of assets with unsaved edits, the choices
//! the save window offers for each of them, and the save jobs that a save
//! request turns into. Writing the files is left to the caller.
use vstd::prelude::*;
use crate::insertion::{lemma_insert_at, lemma_insert_permutation};

verus! {

/// The kind of an asset, as far as saving it is concerned.
#[derive(Debug, Clone, Copy, PartialEq, Eq, Structural)]
pub enum AssetType {
    AnimationGraph,
    StateMachine,
    GraphClip,
    Ragdoll,
    RagdollBoneMap,
    /// An asset type the editor does not save, by a number of the caller's.
    Other(u64),
}

impl AssetType {
    /// The place of this type in the order the save window groups types by.
    pub open spec fn spec_rank(&self) -> int {
        match self {
            AssetType::AnimationGraph => 0,
            AssetType::StateMachine => 1,
            AssetType::GraphClip => 2,
            AssetType::Ragdoll => 3,
            AssetType::RagdollBoneMap => 4,
            AssetType::Other(n) => 5 + *n,
        }
    }

    pub fn rank(&self) -> (r: u128)
        ensures
            r == self.spec_rank(),
    {
        match self {
            AssetType::AnimationGraph => 0,
            AssetType::StateMachine => 1,
            AssetType::GraphClip => 2,
            AssetType::Ragdoll => 3,
            AssetType::RagdollBoneMap => 4,
            AssetType::Other(n) => 5 + *n as u128,
        }
    }

    pub open spec fn spec_display_name(&self) -> Seq<char> {
        match self {
            AssetType::AnimationGraph => "Animation Graph"@,
            AssetType::StateMachine => "State Machine"@,
            AssetType::GraphClip => "Animation Clip"@,
            AssetType::Ragdoll => "Ragdoll"@,
            AssetType::RagdollBoneMap => "Ragdoll Bone Map"@,
            AssetType::Other(_) => "Unknown type (?)"@,
        }
    }

    /// The heading the save window shows above an asset of this type.
    pub fn display_name(&self) -> (s: String)
        ensures
            s@ == self.spec_display_name(),
    {
        match self {
            AssetType::AnimationGraph => "Animation Graph".to_owned(),
            AssetType::StateMachine => "State Machine".to_owned(),
            AssetType::GraphClip => "Animation Clip".to_owned(),
            AssetType::Ragdoll => "Ragdoll".to_owned(),
            AssetType::RagdollBoneMap => "Ragdoll Bone Map".to_owned(),
            AssetType::Other(_) => "Unknown type (?)".to_owned(),
        }
    }
}

/// An asset of any type: its type and its index among assets of that type.
#[derive(Debug, Clone, Copy, PartialEq, Eq, Structural)]
pub struct UntypedAssetId {
    pub asset_type: AssetType,
    pub index: u128,
}

/// The assets with edits that are not saved yet, each with the handle that
/// keeps it loaded. An asset occurs at most once.
pub struct DirtyAssets<H> {
    pub assets: Vec<(UntypedAssetId, H)>,
}

/// The ids of a list of entries.
pub open spec fn entry_ids<X>(s: Seq<(UntypedAssetId, X)>) -> Seq<UntypedAssetId> {
    s.map_values(|e: (UntypedAssetId, X)| e.0)
}

impl<H> DirtyAssets<H> {
    pub open spec fn wf(&self) -> bool {
        entry_ids(self.assets@).no_duplicates()
    }

    /// Each unsaved asset and its handle.
    pub open spec fn view_map(&self) -> Map<UntypedAssetId, H> {
        Map::new(
            |id: UntypedAssetId| entry_ids(self.assets@).contains(id),
            |id: UntypedAssetId| self.assets@[entry_ids(self.assets@).index_of(id)].1,
        )
    }

    pub fn new() -> (d: Self)
        ensures
            d.wf(),
            d.view_map() == Map::<UntypedAssetId, H>::empty(),
    {
        let d = DirtyAssets { assets: Vec::new() };
        assert(d.view_map() =~= Map::<UntypedAssetId, H>::empty());
        d
    }

    fn position(&self, id: UntypedAssetId) -> (r: Option<usize>)
        requires
            self.wf(),
        ensures
            match r {
                Some(i) => i < self.assets.len() && self.assets@[i as int].0 == id
                    && entry_ids(self.assets@).index_of(id) == i,
                None => !entry_ids(self.assets@).contains(id),
            },
    {
        let mut i: usize = 0;
        while i < self.assets.len()
            invariant
                self.wf(),
                i <= self.assets.len(),
                forall|j: int| 0 <= j < i ==> self.assets@[j].0 != id,
            decreases self.assets.len() - i,
        {
            if self.assets[i].0 == id {
                proof {
                    assert(entry_ids(self.assets@)[i as int] == id);
                    assert(entry_ids(self.assets@).contains(id));
                    assert forall|j: int| 0 <= j < i implies entry_ids(self.assets@)[j] != id by {
                        assert(entry_ids(self.assets@)[j] == self.assets@[j].0);
                    }
                    assert(entry_ids(self.assets@).index_of(id) == i) by {
                        let k = entry_ids(self.assets@).index_of(id);
                        assert(entry_ids(self.assets@)[k] == id);
                    }
                }
                return Some(i);
            }
            i = i + 1;
        }
        proof {
            assert forall|j: int| 0 <= j < entry_ids(self.assets@).len() implies entry_ids(
                self.assets@,
            )[j] != id by {
                assert(entry_ids(self.assets@)[j] == self.assets@[j].0);
            }
        }
        None
    }

    /// Marks the asset `id` as edited, holding on to `handle`; an asset that
    /// was marked before gets the new handle.
    pub fn add(&mut self, id: UntypedAssetId, handle: H)
        requires
            old(self).wf(),
        ensures
            final(self).wf(),
            final(self).view_map() == old(self).view_map().insert(id, handle),
    {
        let ghost old_ids = entry_ids(self.assets@);
        match self.position(id) {
            Some(i) => {
                self.assets.set(i, (id, handle));
                proof {
                    assert(entry_ids(self.assets@) =~= old_ids);
                    assert(old_ids[i as int] == id);
                    assert(old_ids.contains(id));
                    assert forall|k: UntypedAssetId| old_ids.contains(k) && k != id implies self.assets@[old_ids.index_of(k)]
                        == old(self).assets@[old_ids.index_of(k)] by {
                        let j = old_ids.index_of(k);
                        assert(old_ids[j] == k);
                    }
                    assert(self.view_map() =~= old(self).view_map().insert(id, handle));
                }
            },
            None => {
                self.assets.push((id, handle));
                proof {
                    let ids = entry_ids(self.assets@);
                    assert(ids =~= old_ids.push(id));
                    assert(ids.no_duplicates()) by {
                        assert forall|a: int, b: int| 0 <= a < ids.len() && 0 <= b < ids.len() && a != b
                            implies ids[a] != ids[b] by {
                            if a < old_ids.len() && b < old_ids.len() {
                            } else if a < old_ids.len() {
                                assert(old_ids.contains(ids[a]));
                            } else if b < old_ids.len() {
                                assert(old_ids.contains(ids[b]));
                            }
                        }
                    }
                    assert forall|k: UntypedAssetId| old_ids.contains(k) implies ids.index_of(k)
                        == old_ids.index_of(k) by {
                        let j = old_ids.index_of(k);
                        assert(old_ids[j] == k);
                        assert(ids[j] == k);
                        assert(ids.contains(k));
                        let j2 = ids.index_of(k);
                        assert(ids[j2] == k);
                    }
                    assert(ids.index_of(id) == old_ids.len()) by {
                        assert(ids[old_ids.len() as int] == id);
                        assert(ids.contains(id));
                        let j2 = ids.index_of(id);
                        assert(ids[j2] == id);
                    }
                    assert forall|k: UntypedAssetId| #[trigger] ids.contains(k) <==> old_ids.contains(k) || k == id by {
                        if ids.contains(k) && k != id {
                            let a = ids.index_of(k);
                            assert(ids[a] == k);
                            assert(old_ids[a] == k);
                        }
                        if old_ids.contains(k) {
                            let a = old_ids.index_of(k);
                            assert(old_ids[a] == k);
                            assert(ids[a] == k);
                        }
                        if k == id {
                            assert(ids[old_ids.len() as int] == id);
                        }
                    }
                    assert forall|k: UntypedAssetId| old_ids.contains(k) implies self.assets@[ids.index_of(k)]
                        == old(self).assets@[old_ids.index_of(k)] by {
                        let a = old_ids.index_of(k);
                        assert(old_ids[a] == k);
                    }
                    assert(self.view_map() =~= old(self).view_map().insert(id, handle));
                }
            },
        }
    }

    /// Forgets the edits of the asset `id`; its handle is returned.
    pub fn remove(&mut self, id: UntypedAssetId) -> (h: Option<H>)
        requires
            old(self).wf(),
        ensures
            final(self).wf(),
            final(self).view_map() == old(self).view_map().remove(id),
            h == old(self).view_map().get(id),
    {
        let ghost old_ids = entry_ids(self.assets@);
        match self.position(id) {
            Some(i) => {
                let (_, handle) = self.assets.remove(i);
                proof {
                    let ids = entry_ids(self.assets@);
                    assert(ids =~= old_ids.remove(i as int));
                    old_ids.remove_ensures(i as int);
                    assert(ids.no_duplicates()) by {
                        assert forall|a: int, b: int| 0 <= a < ids.len() && 0 <= b < ids.len() && a != b
                            implies ids[a] != ids[b] by {
                            let oa = if a < i { a } else { a + 1 };
                            let ob = if b < i { b } else { b + 1 };
                            assert(ids[a] == old_ids[oa]);
                            assert(ids[b] == old_ids[ob]);
                        }
                    }
                    assert forall|k: UntypedAssetId| #[trigger] ids.contains(k) <==> old_ids.contains(k)
                        && k != id by {
                        if ids.contains(k) {
                            let a = ids.index_of(k);
                            let oa = if a < i { a } else { a + 1 };
                            assert(old_ids[oa] == k);
                            assert(old_ids[i as int] == id);
                        }
                        if old_ids.contains(k) && k != id {
                            let oa = old_ids.index_of(k);
                            assert(oa != i);
                            let a = if oa < i { oa } else { oa - 1 };
                            assert(ids[a] == k);
                        }
                    }
                    assert forall|k: UntypedAssetId| #[trigger] ids.contains(k) implies self.assets@[ids.index_of(
                        k,
                    )].1 == old(self).assets@[old_ids.index_of(k)].1 by {
                        let a = ids.index_of(k);
                        let oa = if a < i { a } else { a + 1 };
                        assert(old_ids[oa] == k);
                        let j2 = old_ids.index_of(k);
                        assert(old_ids[j2] == k);
                    }
                    assert(self.view_map() =~= old(self).view_map().remove(id));
                }
                Some(handle)
            },
            None => {
                proof {
                    assert(self.view_map() =~= old(self).view_map().remove(id));
                }
                None
            },
        }
    }

    /// Whether the asset `id` has unsaved edits.
    pub fn contains(&self, id: UntypedAssetId) -> (b: bool)
        requires
            self.wf(),
        ensures
            b == self.view_map().contains_key(id),
    {
        let r = self.position(id);
        proof {
            if let Some(i) = r {
                assert(entry_ids(self.assets@)[i as int] == id);
            }
        }
        r.is_some()
    }

    /// The unsaved assets, in the order they were first marked.
    pub fn ids(&self) -> (r: Vec<UntypedAssetId>)
        ensures
            r@ == entry_ids(self.assets@),
    {
        let mut r: Vec<UntypedAssetId> = Vec::new();
        let mut i: usize = 0;
        while i < self.assets.len()
            invariant
                i <= self.assets.len(),
                r@ == entry_ids(self.assets@).take(i as int),
            decreases self.assets.len() - i,
        {
            r.push(self.assets[i].0);
            proof {
                assert(entry_ids(self.assets@).take(i + 1) =~= entry_ids(self.assets@).take(
                    i as int,
                ).push(self.assets@[i as int].0));
            }
            i = i + 1;
        }
        proof {
            assert(entry_ids(self.assets@).take(self.assets.len() as int) =~= entry_ids(self.assets@));
        }
        r
    }
}

/// The path shown for an asset: where it is stored, or "Unsaved Asset" for
/// one that was never saved.
pub fn handle_path(current_path: Option<String>) -> (r: String)
    ensures
        r@ == match current_path {
            Some(p) => p@,
            None => "Unsaved Asset"@,
        },
{
    match current_path {
        Some(p) => p,
        None => "Unsaved Asset".to_owned(),
    }
}

/// The name shown for an asset: its path, or "Unsaved Asset" for one that
/// was never saved.
pub fn handle_name(current_path: Option<String>) -> (r: String)
    ensures
        r@ == match current_path {
            Some(p) => p@,
            None => "Unsaved Asset"@,
        },
{
    handle_path(current_path)
}

/// What the save window offers for one unsaved asset.
#[derive(Debug, Clone)]
pub struct SaveWindowAssetMeta {
    pub id: UntypedAssetId,
    pub should_save: bool,
    pub should_rename: bool,
    /// Where the asset goes if it is renamed, below the asset root.
    pub virtual_path: String,
    /// Where the asset is stored now, if it ever was.
    pub current_path: Option<String>,
}

impl SaveWindowAssetMeta {
    /// The offer for an asset stored at `current_path`, if it is stored: a
    /// stored asset keeps its path unless renamed, a new one must be named.
    /// Nothing is marked for saving yet.
    pub fn for_asset(id: UntypedAssetId, current_path: Option<String>) -> (m: Self)
        ensures
            m.id == id,
            !m.should_save,
            m.should_rename == current_path.is_none(),
            m.current_path == current_path,
            m.virtual_path@ == match current_path {
                Some(p) => p@,
                None => Seq::<char>::empty(),
            },
    {
        match current_path {
            Some(p) => {
                let vp = p.clone();
                SaveWindowAssetMeta {
                    id,
                    should_save: false,
                    should_rename: false,
                    virtual_path: vp,
                    current_path: Some(p),
                }
            },
            None => SaveWindowAssetMeta {
                id,
                should_save: false,
                should_rename: true,
                virtual_path: String::new(),
                current_path: None,
            },
        }
    }

    /// The path the asset is saved to: the new one if renamed, else where it
    /// is stored (the empty path for an asset never stored).
    pub open spec fn spec_target_path(&self) -> Seq<char> {
        if self.should_rename {
            self.virtual_path@
        } else {
            match self.current_path {
                Some(p) => p@,
                None => Seq::<char>::empty(),
            }
        }
    }

    pub fn target_path(&self) -> (p: String)
        ensures
            p@ == self.spec_target_path(),
    {
        if self.should_rename {
            self.virtual_path.clone()
        } else {
            match &self.current_path {
                Some(p) => p.clone(),
                None => String::new(),
            }
        }
    }
}

/// The save window's order: by asset type, then by index.
pub open spec fn meta_le(a: SaveWindowAssetMeta, b: SaveWindowAssetMeta) -> bool {
    a.id.asset_type.spec_rank() < b.id.asset_type.spec_rank() || (a.id.asset_type.spec_rank()
        == b.id.asset_type.spec_rank() && a.id.index <= b.id.index)
}

fn meta_le_exec(a: &SaveWindowAssetMeta, b: &SaveWindowAssetMeta) -> (r: bool)
    ensures
        r == meta_le(*a, *b),
{
    let ra = a.id.asset_type.rank();
    let rb = b.id.asset_type.rank();
    ra < rb || (ra == rb && a.id.index <= b.id.index)
}

/// `out` is `input` stably sorted by the save window's order, with `src`
/// telling for each output position the input position it came from.
pub open spec fn is_stable_sort_of(
    out: Seq<SaveWindowAssetMeta>,
    input: Seq<SaveWindowAssetMeta>,
    src: Seq<int>,
) -> bool {
    &&& out.len() == input.len()
    &&& src.len() == out.len()
    &&& forall|a: int| 0 <= a < out.len() ==> 0 <= #[trigger] src[a] < input.len()
    &&& forall|a: int, b: int| 0 <= a < b < out.len() ==> #[trigger] src[a] != #[trigger] src[b]
    &&& forall|a: int| 0 <= a < out.len() ==> #[trigger] out[a] == input[src[a]]
    &&& forall|a: int, b: int| 0 <= a < b < out.len() ==> meta_le(#[trigger] out[a], #[trigger] out[b])
    &&& forall|a: int, b: int|
        0 <= a < b < out.len() && meta_le(out[b], out[a]) ==> #[trigger] src[a] < #[trigger] src[b]
}

/// The save window over some unsaved assets.
#[derive(Debug)]
pub struct SaveWindow {
    pub assets: Vec<SaveWindowAssetMeta>,
}

impl SaveWindow {
    /// A save window listing `assets` grouped by type and ordered by index;
    /// assets in the same place keep their order.
    #[verifier::rlimit(40)]
    pub fn new(assets: Vec<SaveWindowAssetMeta>) -> (w: Self)
        ensures
            exists|src: Seq<int>| #[trigger] is_stable_sort_of(w.assets@, assets@, src),
    {
        let n = assets.len();
        let mut rest = assets;
        let mut out: Vec<SaveWindowAssetMeta> = Vec::new();
        let ghost mut src: Seq<int> = Seq::empty();
        let ghost mut pos: Seq<int> = Seq::empty();
        let mut j: usize = 0;
        while j < n
            invariant
                n == assets.len(),
                j <= n,
                rest@ == assets@.subrange(j as int, n as int),
                out.len() == j,
                src.len() == j,
                pos.len() == j,
                forall|a: int| 0 <= a < j ==> 0 <= #[trigger] src[a] < j && out@[a] == assets@[src[a]],
                forall|t: int| 0 <= t < j ==> 0 <= #[trigger] pos[t] < j && src[pos[t]] == t,
                forall|a: int, b: int| 0 <= a < b < j ==> #[trigger] src[a] != #[trigger] src[b],
                forall|a: int, b: int| 0 <= a < b < j ==> meta_le(#[trigger] out@[a], #[trigger] out@[b]),
                forall|a: int, b: int|
                    0 <= a < b < j && meta_le(out@[b], out@[a]) ==> #[trigger] src[a] < #[trigger] src[b],
            decreases n - j,
        {
            let item = rest.remove(0);
            proof {
                assert(rest@ =~= assets@.subrange(j + 1, n as int));
            }
            let mut p: usize = 0;
            while p < out.len() && meta_le_exec(&out[p], &item)
                invariant
                    p <= out.len(),
                    forall|a: int| 0 <= a < p ==> meta_le(#[trigger] out@[a], item),
                decreases out.len() - p,
            {
                p = p + 1;
            }
            let ghost old_out = out@;
            let ghost old_src = src;
            let ghost old_pos = pos;
            let ghost it = item;
            out.insert(p, item);
            proof {
                assert(it == assets@[j as int]);
                src = old_src.insert(p as int, j as int);
                pos = old_pos.map_values(|x: int| if x >= p { x + 1 } else { x }).push(p as int);
                lemma_insert_at(old_out, p as int, it);
                lemma_insert_permutation(old_src, old_pos, p as int, j as int);
                lemma_insert_at(old_src, p as int, j as int);
                lemma_stable_insert(old_out, old_src, p as int, it, j as int);
                assert forall|a: int| 0 <= a < j + 1 implies 0 <= #[trigger] src[a] < j + 1 && out@[a]
                    == assets@[src[a]] by {
                    if a > p {
                        assert(out@[a] == old_out[a - 1]);
                    }
                }
            }
            j = j + 1;
        }
        let w = SaveWindow { assets: out };
        proof {
            assert(out@.len() == assets@.len());
            assert(src.len() == out@.len());
            assert(is_stable_sort_of(w.assets@, assets@, src));
        }
        w
    }

    /// The save request that the window's Save button sends: each asset
    /// marked for saving, with the path it is saved to, in window order.
    pub fn save_request(&self) -> (m: SaveMultiple)
        ensures
            m.assets@.len() == selected(self.assets@).len(),
            forall|i: int|
                0 <= i < m.assets@.len() ==> #[trigger] m.assets@[i].0 == selected(self.assets@)[i].id
                    && m.assets@[i].1@ == selected(self.assets@)[i].spec_target_path(),
    {
        let mut out: Vec<(UntypedAssetId, String)> = Vec::new();
        let mut i: usize = 0;
        while i < self.assets.len()
            invariant
                i <= self.assets.len(),
                out@.len() == selected(self.assets@.take(i as int)).len(),
                forall|k: int|
                    0 <= k < out@.len() ==> #[trigger] out@[k].0 == selected(self.assets@.take(i as int))[k].id
                        && out@[k].1@ == selected(self.assets@.take(i as int))[k].spec_target_path(),
            decreases self.assets.len() - i,
        {
            let meta = &self.assets[i];
            proof {
                assert(self.assets@.take(i + 1).drop_last() =~= self.assets@.take(i as int));
            }
            if meta.should_save {
                out.push((meta.id, meta.target_path()));
            }
            i = i + 1;
        }
        proof {
            assert(self.assets@.take(self.assets.len() as int) =~= self.assets@);
        }
        SaveMultiple { assets: out }
    }
}

/// The offers marked for saving, in order.
pub open spec fn selected(s: Seq<SaveWindowAssetMeta>) -> Seq<SaveWindowAssetMeta>
    decreases s.len(),
{
    if s.len() == 0 {
        s
    } else if s.last().should_save {
        selected(s.drop_last()).push(s.last())
    } else {
        selected(s.drop_last())
    }
}

proof fn lemma_stable_insert(
    out: Seq<SaveWindowAssetMeta>,
    src: Seq<int>,
    p: int,
    x: SaveWindowAssetMeta,
    j: int,
)
    requires
        0 <= p <= out.len(),
        src.len() == out.len(),
        forall|a: int| 0 <= a < out.len() ==> 0 <= #[trigger] src[a] < j,
        forall|a: int, b: int| 0 <= a < b < out.len() ==> meta_le(#[trigger] out[a], #[trigger] out[b]),
        forall|a: int, b: int|
            0 <= a < b < out.len() && meta_le(out[b], out[a]) ==> #[trigger] src[a] < #[trigger] src[b],
        forall|a: int| 0 <= a < p ==> meta_le(#[trigger] out[a], x),
        p < out.len() ==> !meta_le(out[p], x),
    ensures
        forall|a: int, b: int|
            0 <= a < b < out.len() + 1 ==> meta_le(
                #[trigger] out.insert(p, x)[a],
                #[trigger] out.insert(p, x)[b],
            ),
        forall|a: int, b: int|
            0 <= a < b < out.len() + 1 && meta_le(out.insert(p, x)[b], out.insert(p, x)[a])
                ==> #[trigger] src.insert(p, j)[a] < #[trigger] src.insert(p, j)[b],
{
    lemma_insert_at(out, p, x);
    lemma_insert_at(src, p, j);
    assert forall|a: int, b: int| 0 <= a < b < out.len() + 1 implies meta_le(
        #[trigger] out.insert(p, x)[a],
        #[trigger] out.insert(p, x)[b],
    ) by {
        if a < p && b > p {
            assert(meta_le(out[a], out[b - 1]));
        } else if a == p && b > p {
            assert(meta_le(out[p], out[b - 1]));
        } else if a > p {
            assert(meta_le(out[a - 1], out[b - 1]));
        }
    }
    assert forall|a: int, b: int|
        0 <= a < b < out.len() + 1 && meta_le(out.insert(p, x)[b], out.insert(p, x)[a]) implies #[trigger] src.insert(
        p,
        j,
    )[a] < #[trigger] src.insert(p, j)[b] by {
        if a < p && b > p {
            assert(src[a] < src[b - 1]) by {
                assert(meta_le(out[a], out[b - 1]));
            }
        } else if a == p && b > p {
            assert(meta_le(out[p], out[b - 1]));
        } else if a > p {
            assert(src[a - 1] < src[b - 1]);
        }
    }
}

/// One asset to write to a file: its id, which names the serializer to use,
/// and the path below the asset root.
#[derive(Debug, Clone)]
pub struct SaveJob {
    pub id: UntypedAssetId,
    pub virtual_path: String,
}

/// The asset types the editor can write.
pub open spec fn is_saveable(t: AssetType) -> bool {
    !(t is Other)
}

/// The jobs that saving the entries of `s` in order gives: one for each
/// entry of a type the editor can write.
pub open spec fn save_jobs(s: Seq<(UntypedAssetId, String)>) -> Seq<(UntypedAssetId, Seq<char>)>
    decreases s.len(),
{
    if s.len() == 0 {
        Seq::empty()
    } else if is_saveable(s.last().0.asset_type) {
        save_jobs(s.drop_last()).push((s.last().0, s.last().1@))
    } else {
        save_jobs(s.drop_last())
    }
}

/// The id and path of each job, by views.
pub open spec fn job_views(jobs: Seq<SaveJob>) -> Seq<(UntypedAssetId, Seq<char>)> {
    jobs.map_values(|j: SaveJob| (j.id, j.virtual_path@))
}

/// The ids of the assets that saving the entries of `s` writes.
pub open spec fn saved_ids(s: Seq<(UntypedAssetId, String)>) -> Seq<UntypedAssetId> {
    save_jobs(s).map_values(|j: (UntypedAssetId, Seq<char>)| j.0)
}

/// Every entry of a save request whose asset is of one of the five types
/// the editor writes (anything but `Other`) gives a job with its id and its
/// path, and its id is among the assets saved.
pub proof fn law_writable_entries_are_saved(s: Seq<(UntypedAssetId, String)>, k: int)
    requires
        0 <= k < s.len(),
        !(s[k].0.asset_type is Other),
    ensures
        save_jobs(s).contains((s[k].0, s[k].1@)),
        saved_ids(s).contains(s[k].0),
    decreases s.len(),
{
    let e = (s[k].0, s[k].1@);
    if k == s.len() - 1 {
        assert(save_jobs(s) == save_jobs(s.drop_last()).push(e));
        assert(save_jobs(s)[save_jobs(s).len() - 1] == e);
    } else {
        law_writable_entries_are_saved(s.drop_last(), k);
        assert(s.drop_last()[k] == s[k]);
        let j = choose|j: int| 0 <= j < save_jobs(s.drop_last()).len() && save_jobs(s.drop_last())[j] == e;
        assert(save_jobs(s)[j] == e);
    }
    let j = choose|j: int| 0 <= j < save_jobs(s).len() && save_jobs(s)[j] == e;
    assert(saved_ids(s)[j] == s[k].0);
}

/// Every job of a save request comes from one of its entries, with that
/// entry's id and path, and that entry's asset is not of an `Other` type.
pub proof fn law_jobs_come_from_writable_entries(s: Seq<(UntypedAssetId, String)>, j: int)
    requires
        0 <= j < save_jobs(s).len(),
    ensures
        exists|k: int|
            0 <= k < s.len() && #[trigger] s[k].0 == save_jobs(s)[j].0 && s[k].1@ == save_jobs(s)[j].1
                && !(s[k].0.asset_type is Other),
    decreases s.len(),
{
    let n = s.len() - 1;
    if j < save_jobs(s.drop_last()).len() {
        assert(save_jobs(s)[j] == save_jobs(s.drop_last())[j]);
        law_jobs_come_from_writable_entries(s.drop_last(), j);
        let k = choose|k: int|
            0 <= k < s.drop_last().len() && #[trigger] s.drop_last()[k].0 == save_jobs(s.drop_last())[j].0
                && s.drop_last()[k].1@ == save_jobs(s.drop_last())[j].1 && !(s.drop_last()[k].0.asset_type is Other);
        assert(s[k] == s.drop_last()[k]);
    } else {
        assert(save_jobs(s)[j] == (s[n].0, s[n].1@));
        assert(s[n].0 == save_jobs(s)[j].0);
    }
}

/// An asset of an `Other` type is never among the assets a save request
/// saves, so it stays unsaved.
pub proof fn law_other_types_stay_unsaved(s: Seq<(UntypedAssetId, String)>, x: UntypedAssetId)
    requires
        x.asset_type is Other,
    ensures
        !saved_ids(s).contains(x),
{
    if saved_ids(s).contains(x) {
        let j = choose|j: int| 0 <= j < saved_ids(s).len() && saved_ids(s)[j] == x;
        law_jobs_come_from_writable_entries(s, j);
    }
}

/// Carries out the bookkeeping of a save request: each asset in it of a
/// type the editor can write becomes a job, in the request's order, and is
/// no longer unsaved. Assets of other types are not written, so they stay
/// unsaved.
pub fn handle_save_multiple<H>(dirty: &mut DirtyAssets<H>, action: SaveMultiple) -> (jobs: Vec<SaveJob>)
    requires
        old(dirty).wf(),
    ensures
        final(dirty).wf(),
        final(dirty).view_map() == old(dirty).view_map().remove_keys(saved_ids(action.assets@).to_set()),
        job_views(jobs@) == save_jobs(action.assets@),
        forall|k: int| 0 <= k < action.assets@.len() && !(action.assets@[k].0.asset_type is Other)
            ==> !final(dirty).view_map().contains_key(#[trigger] action.assets@[k].0)
                && job_views(jobs@).contains((action.assets@[k].0, action.assets@[k].1@)),
        forall|x: UntypedAssetId| #[trigger] old(dirty).view_map().contains_key(x) && x.asset_type is Other
            ==> final(dirty).view_map().contains_key(x),
{
    let mut jobs: Vec<SaveJob> = Vec::new();
    let entries = action.assets;
    let mut i: usize = 0;
    proof {
        assert(saved_ids(entries@.take(0)).to_set() =~= Set::<UntypedAssetId>::empty());
        assert(dirty.view_map() =~= old(dirty).view_map().remove_keys(Set::<UntypedAssetId>::empty()));
    }
    while i < entries.len()
        invariant
            i <= entries.len(),
            dirty.wf(),
            dirty.view_map() == old(dirty).view_map().remove_keys(saved_ids(entries@.take(i as int)).to_set()),
            job_views(jobs@) == save_jobs(entries@.take(i as int)),
        decreases entries.len() - i,
    {
        let id = entries[i].0;
        let ghost t = entries@.take(i as int);
        let ghost t1 = entries@.take(i + 1);
        proof {
            assert(t1.drop_last() =~= t);
            assert(t1.last() == entries@[i as int]);
        }
        if entries[i].0.asset_type.is_saveable() {
            let _ = dirty.remove(id);
            let path = entries[i].1.clone();
            jobs.push(SaveJob { id, virtual_path: path });
            proof {
                assert(saved_ids(t1) =~= saved_ids(t).push(id));
                assert(saved_ids(t1).to_set() =~= saved_ids(t).to_set().insert(id)) by {
                    assert forall|k: UntypedAssetId| saved_ids(t1).to_set().contains(k) <==> saved_ids(
                        t,
                    ).to_set().insert(id).contains(k) by {
                        if saved_ids(t1).contains(k) && k != id {
                            let a = choose|a: int| 0 <= a < saved_ids(t1).len() && saved_ids(t1)[a] == k;
                            assert(saved_ids(t)[a] == k);
                        }
                        if saved_ids(t).contains(k) {
                            let a = choose|a: int| 0 <= a < saved_ids(t).len() && saved_ids(t)[a] == k;
                            assert(saved_ids(t1)[a] == k);
                        }
                        if k == id {
                            assert(saved_ids(t1)[saved_ids(t).len() as int] == id);
                        }
                    }
                }
                assert(dirty.view_map() =~= old(dirty).view_map().remove_keys(saved_ids(t1).to_set()));
                assert(job_views(jobs@) =~= save_jobs(t1));
            }
        } else {
            proof {
                assert(save_jobs(t1) == save_jobs(t));
                assert(saved_ids(t1) =~= saved_ids(t));
            }
        }
        i = i + 1;
    }
    proof {
        assert(entries@.take(entries.len() as int) =~= entries@);
        assert forall|k: int| 0 <= k < entries@.len() && !(entries@[k].0.asset_type is Other)
            implies !dirty.view_map().contains_key(#[trigger] entries@[k].0)
                && job_views(jobs@).contains((entries@[k].0, entries@[k].1@)) by {
            law_writable_entries_are_saved(entries@, k);
            assert(saved_ids(entries@).to_set().contains(entries@[k].0));
        }
        assert forall|x: UntypedAssetId| #[trigger] old(dirty).view_map().contains_key(x) && x.asset_type is Other
            implies dirty.view_map().contains_key(x) by {
            law_other_types_stay_unsaved(entries@, x);
        }
    }
    jobs
}

impl AssetType {
    pub fn is_saveable(&self) -> (b: bool)
        ensures
            b == is_saveable(*self),
    {
        match self {
            AssetType::Other(_) => false,
            _ => true,
        }
    }
}

/// What the editor does about a save request.
#[derive(Debug)]
pub enum SaveOutcome {
    /// Ask the user which assets to save, in a save window over the unsaved
    /// assets.
    OpenSaveWindow,
    /// Write these assets.
    Write(Vec<SaveJob>),
}

/// Handles a save request: a request to choose opens the save window, a
/// request to save turns into jobs as [`handle_save_multiple`] says.
pub fn handle_save_action<H>(dirty: &mut DirtyAssets<H>, action: SaveAction) -> (r: SaveOutcome)
    requires
        old(dirty).wf(),
    ensures
        final(dirty).wf(),
        match action {
            SaveAction::RequestMultiple => r is OpenSaveWindow && final(dirty).view_map() == old(dirty).view_map(),
            SaveAction::Multiple(m) => (r matches SaveOutcome::Write(jobs) && job_views(jobs@)
                == save_jobs(m.assets@)) && final(dirty).view_map() == old(dirty).view_map().remove_keys(
                saved_ids(m.assets@).to_set(),
            ),
        },
{
    match action {
        SaveAction::RequestMultiple => SaveOutcome::OpenSaveWindow,
        SaveAction::Multiple(m) => SaveOutcome::Write(handle_save_multiple(dirty, m)),
    }
}

/// The save window to open over the unsaved assets, each given with where
/// it is stored now (if it is): none where no view is active to show it in.
pub fn handle_request_save_multiple(
    active_view: Option<usize>,
    unsaved: Vec<(UntypedAssetId, Option<String>)>,
) -> (w: Option<SaveWindow>)
    ensures
        active_view is None ==> w is None,
        active_view is Some ==> (w matches Some(win) && lists_offers_for(win, unsaved@)),
{
    if active_view.is_none() {
        return None;
    }
    let mut metas: Vec<SaveWindowAssetMeta> = Vec::new();
    let n = unsaved.len();
    let mut rest = unsaved;
    let mut i: usize = 0;
    while i < n
        invariant
            n == unsaved.len(),
            i <= n,
            rest@ == unsaved@.subrange(i as int, n as int),
            metas.len() == i,
            forall|k: int| 0 <= k < i ==> is_offer_for(#[trigger] metas@[k], unsaved@[k]),
        decreases n - i,
    {
        let (id, path) = rest.remove(0);
        proof {
            assert(rest@ =~= unsaved@.subrange(i + 1, n as int));
        }
        let meta = SaveWindowAssetMeta::for_asset(id, path);
        metas.push(meta);
        i = i + 1;
    }
    let ghost offered = metas@;
    let w = SaveWindow::new(metas);
    proof {
        assert(are_offers_for(offered, unsaved@));
        let src = choose|src: Seq<int>| #[trigger] is_stable_sort_of(w.assets@, offered, src);
        assert(is_stable_sort_of(w.assets@, offered, src) && are_offers_for(offered, unsaved@));
        assert(lists_offers_for(w, unsaved@));
    }
    Some(w)
}

/// `m` is what the save window offers for the asset `u`, stored where `u`
/// says.
pub open spec fn is_offer_for(m: SaveWindowAssetMeta, u: (UntypedAssetId, Option<String>)) -> bool {
    &&& m.id == u.0
    &&& !m.should_save
    &&& m.should_rename == u.1.is_none()
    &&& m.current_path == u.1
    &&& m.virtual_path@ == match u.1 {
        Some(p) => p@,
        None => Seq::<char>::empty(),
    }
}

/// `w` lists the offers for the unsaved assets `s`, stably sorted.
pub open spec fn lists_offers_for(w: SaveWindow, s: Seq<(UntypedAssetId, Option<String>)>) -> bool {
    exists|metas: Seq<SaveWindowAssetMeta>, src: Seq<int>|
        #[trigger] is_stable_sort_of(w.assets@, metas, src) && are_offers_for(metas, s)
}

/// `metas` are the offers for the unsaved assets `s`, in order.
pub open spec fn are_offers_for(
    metas: Seq<SaveWindowAssetMeta>,
    s: Seq<(UntypedAssetId, Option<String>)>,
) -> bool {
    metas.len() == s.len() && forall|k: int| 0 <= k < s.len() ==> is_offer_for(#[trigger] metas[k], s[k])
}

/// A request to save assets: each with the path it is saved to, below the
/// asset root.
#[derive(Debug, Clone)]
pub struct SaveMultiple {
    pub assets: Vec<(UntypedAssetId, String)>,
}

/// A save request from the editor.
#[derive(Debug, Clone)]
pub enum SaveAction {
    /// Open a save window over the unsaved assets.
    RequestMultiple,
    /// Save these assets.
    Multiple(SaveMultiple),
}

} // verus!
