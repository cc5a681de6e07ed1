//! The tree in which the editor lists the bones of a skeleton, from its
//! root down.
use vstd::prelude::*;
use crate::key_map::KeyMap;
use crate::registry::RegistryKey;
use crate::tree::{branch_view, lemma_node_view, BoneId, SkeletonNode, Tree, TreeInternal, TreeView};

verus! {

/// A bone of a skeleton: its path of names from the root, and its child
/// bones in order.
pub struct BoneModel {
    pub path: Vec<String>,
    pub children: Vec<BoneId>,
}

/// A skeleton: its root bone and its bones by id.
pub struct SkeletonModel {
    pub root: BoneId,
    pub bones: KeyMap<u128, BoneModel>,
}

/// A bone's label: the last name of its path, or `ROOT` for the empty
/// path.
pub open spec fn bone_label(path: Seq<String>) -> Seq<char> {
    if path.len() == 0 {
        "ROOT"@
    } else {
        path.last()@
    }
}

/// Every bone from `bone` down is in the skeleton, no chain of children
/// below it is longer than `depth`, so no bone is its own ancestor.
pub open spec fn hierarchy_within(bones: Map<u128, BoneModel>, bone: u128, depth: nat) -> bool
    decreases depth,
{
    &&& depth > 0
    &&& bones.contains_key(bone)
    &&& forall|j: int| 0 <= j < bones[bone].children@.len() ==> hierarchy_within(bones, (#[trigger] bones[bone].children@[j]).0, (depth - 1) as nat)
}

/// The tree of the bones from `bone` down: a leaf for a bone without
/// children, else a node with the trees of its children in order.
pub open spec fn skeleton_view(bones: Map<u128, BoneModel>, bone: u128, depth: nat) -> TreeView<SkeletonNode, SkeletonNode>
    decreases depth,
{
    let b = bones[bone];
    let node = SkeletonNode { bone_id: BoneId(bone) };
    if b.children@.len() == 0 || depth == 0 {
        TreeView::Leaf(bone_label(b.path@), node)
    } else {
        TreeView::Node(
            bone_label(b.path@),
            node,
            Seq::new(b.children@.len(), |j: int| skeleton_view(bones, b.children@[j].0, (depth - 1) as nat)),
        )
    }
}

fn label_of(path: &Vec<String>) -> (s: String)
    ensures
        s@ == bone_label(path@),
{
    if path.len() == 0 {
        let s = "ROOT".to_owned();
        proof {
            reveal_strlit("ROOT");
        }
        s
    } else {
        path[path.len() - 1].clone()
    }
}

fn skeleton_subtree(skeleton: &SkeletonModel, bone: BoneId, Ghost(depth): Ghost<nat>) -> (t: TreeInternal<SkeletonNode, SkeletonNode>)
    requires
        skeleton.bones.wf(),
        hierarchy_within(skeleton.bones.view_map(), bone.0, depth),
    ensures
        t.tv() == skeleton_view(skeleton.bones.view_map(), bone.0, depth),
    decreases depth,
{
    let ghost bones = skeleton.bones.view_map();
    let b = skeleton.bones.get(&bone.0).unwrap();
    let node = SkeletonNode { bone_id: bone };
    let label = label_of(&b.path);
    if b.children.len() == 0 {
        return TreeInternal::Leaf(label, node);
    }
    let mut kids: Vec<TreeInternal<SkeletonNode, SkeletonNode>> = Vec::new();
    let mut j: usize = 0;
    while j < b.children.len()
        invariant
            skeleton.bones.wf(),
            bones == skeleton.bones.view_map(),
            *b == bones[bone.0],
            hierarchy_within(bones, bone.0, depth),
            j <= b.children@.len(),
            kids@.len() == j,
            forall|i: int| 0 <= i < j ==> (#[trigger] kids@[i]).tv() == skeleton_view(bones, b.children@[i].0, (depth - 1) as nat),
        decreases b.children@.len() - j,
    {
        let child = b.children[j];
        assert(hierarchy_within(bones, b.children@[j as int].0, (depth - 1) as nat));
        let kid = skeleton_subtree(skeleton, child, Ghost((depth - 1) as nat));
        kids.push(kid);
        j = j + 1;
    }
    proof {
        lemma_node_view(label, node, kids);
        let v = skeleton_view(bones, bone.0, depth);
        assert(v matches TreeView::Node(_, _, _));
        assert(branch_view(kids@) =~= v->Node_2);
    }
    TreeInternal::Node(label, node, kids)
}

impl Tree<SkeletonNode, SkeletonNode> {
    /// The tree of a skeleton's bones, with its root as the one top-level
    /// entry.
    pub fn skeleton_tree(skeleton: &SkeletonModel) -> (r: Self)
        requires
            skeleton.bones.wf(),
            exists|depth: nat| hierarchy_within(skeleton.bones.view_map(), skeleton.root.0, depth),
        ensures
            r.entries() == seq![skeleton_view(
                skeleton.bones.view_map(),
                skeleton.root.0,
                choose|depth: nat| hierarchy_within(skeleton.bones.view_map(), skeleton.root.0, depth),
            )],
    {
        let ghost depth = choose|depth: nat| hierarchy_within(skeleton.bones.view_map(), skeleton.root.0, depth);
        let root = skeleton_subtree(skeleton, skeleton.root, Ghost(depth));
        let mut entries: Vec<TreeInternal<SkeletonNode, SkeletonNode>> = Vec::new();
        entries.push(root);
        let r = Tree(entries);
        assert(r.entries() =~= seq![root.tv()]);
        r
    }
}


/// A bone's path, name by name.
pub open spec fn path_view(path: Seq<String>) -> Seq<Seq<char>> {
    path.map_values(|n: String| n@)
}

/// The first bone of `bones` whose path is `p`.
pub open spec fn bone_at_path(bones: Seq<(u128, BoneModel)>, p: Seq<Seq<char>>) -> Option<BoneId>
    decreases bones.len(),
{
    if bones.len() == 0 {
        None
    } else if path_view(bones[0].1.path@) == p {
        Some(BoneId(bones[0].0))
    } else {
        bone_at_path(bones.drop_first(), p)
    }
}

fn same_path(a: &Vec<String>, b: &Vec<String>) -> (r: bool)
    ensures
        r == (path_view(a@) == path_view(b@)),
{
    if a.len() != b.len() {
        proof {
            assert(path_view(a@).len() != path_view(b@).len());
        }
        return false;
    }
    let mut i: usize = 0;
    while i < a.len()
        invariant
            a@.len() == b@.len(),
            i <= a@.len(),
            forall|j: int| 0 <= j < i ==> a@[j]@ == b@[j]@,
        decreases a@.len() - i,
    {
        if !a[i].same_key(&b[i]) {
            proof {
                assert(path_view(a@)[i as int] != path_view(b@)[i as int]);
            }
            return false;
        }
        i = i + 1;
    }
    proof {
        assert(path_view(a@) =~= path_view(b@));
    }
    true
}

/// The bone of the skeleton whose path is `p`, the first one in storage
/// order.
fn find_bone_at_path(skeleton: &SkeletonModel, p: &Vec<String>) -> (r: Option<BoneId>)
    ensures
        r == bone_at_path(skeleton.bones.entries@, path_view(p@)),
{
    let es = &skeleton.bones.entries;
    let mut i: usize = 0;
    proof {
        assert(es@.skip(0) =~= es@);
    }
    while i < es.len()
        invariant
            i <= es@.len(),
            es@ == skeleton.bones.entries@,
            bone_at_path(es@, path_view(p@)) == bone_at_path(es@.skip(i as int), path_view(p@)),
        decreases es@.len() - i,
    {
        proof {
            assert(es@.skip(i as int).drop_first() =~= es@.skip(i as int + 1));
            assert(es@.skip(i as int)[0] == es@[i as int]);
        }
        if same_path(&es[i].1.path, p) {
            proof {
                let rest = es@.skip(i as int);
                assert(rest.len() > 0);
                assert(path_view(rest[0].1.path@) == path_view(p@));
                assert(bone_at_path(rest, path_view(p@)) == Some(BoneId(rest[0].0)));
            }
            return Some(BoneId(es[i].0));
        }
        i = i + 1;
    }
    None
}

/// For each bone of a skeleton, which bones the symmetry sends onto it:
/// every bone, in storage order, with the bone at its flipped path, where
/// the skeleton has one.
pub struct ReverseSkeletonIndex {
    pub targets: Vec<(BoneId, Option<BoneId>)>,
}

impl ReverseSkeletonIndex {
    /// The index of `skeleton` under the path flip `flip`.
    pub fn new<H: Fn(&Vec<String>) -> Vec<String>>(skeleton: &SkeletonModel, flip: &H) -> (r: Self)
        requires
            forall|p: &Vec<String>| #[trigger] flip.requires((p,)),
        ensures
            r.targets@.len() == skeleton.bones.entries@.len(),
            forall|j: int| 0 <= j < r.targets@.len() ==> {
                let e = skeleton.bones.entries@[j];
                &&& (#[trigger] r.targets@[j]).0 == BoneId(e.0)
                &&& exists|t: Vec<String>| flip.ensures((&e.1.path,), t)
                    && r.targets@[j].1 == bone_at_path(skeleton.bones.entries@, path_view(t@))
            },
    {
        let mut targets: Vec<(BoneId, Option<BoneId>)> = Vec::new();
        let mut i: usize = 0;
        while i < skeleton.bones.entries.len()
            invariant
                i <= skeleton.bones.entries@.len(),
                targets@.len() == i,
                forall|p: &Vec<String>| #[trigger] flip.requires((p,)),
                forall|j: int| 0 <= j < i ==> {
                    let e = skeleton.bones.entries@[j];
                    &&& (#[trigger] targets@[j]).0 == BoneId(e.0)
                    &&& exists|t: Vec<String>| flip.ensures((&e.1.path,), t)
                        && targets@[j].1 == bone_at_path(skeleton.bones.entries@, path_view(t@))
                },
            decreases skeleton.bones.entries@.len() - i,
        {
            let t = flip(&skeleton.bones.entries[i].1.path);
            let target = find_bone_at_path(skeleton, &t);
            let ghost before = targets@;
            targets.push((BoneId(skeleton.bones.entries[i].0), target));
            proof {
                let e = skeleton.bones.entries@[i as int];
                assert(flip.ensures((&e.1.path,), t));
                assert forall|j: int| 0 <= j < i + 1 implies {
                    let e = skeleton.bones.entries@[j];
                    &&& (#[trigger] targets@[j]).0 == BoneId(e.0)
                    &&& exists|t: Vec<String>| flip.ensures((&e.1.path,), t)
                        && targets@[j].1 == bone_at_path(skeleton.bones.entries@, path_view(t@))
                } by {
                    if j < i {
                        assert(targets@[j] == before[j]);
                    } else {
                        assert(targets@[j].1 == bone_at_path(skeleton.bones.entries@, path_view(t@)));
                    }
                }
            }
            i = i + 1;
        }
        ReverseSkeletonIndex { targets }
    }

    /// The bones that the symmetry sends onto `bone`, in storage order.
    pub fn mapping_to_bone(&self, bone: BoneId) -> (r: Vec<BoneId>)
        ensures
            r@ == self.targets@.filter(|e: (BoneId, Option<BoneId>)| e.1 == Some(bone)).map_values(
                |e: (BoneId, Option<BoneId>)| e.0,
            ),
    {
        let ghost pred = |e: (BoneId, Option<BoneId>)| e.1 == Some(bone);
        let mut r: Vec<BoneId> = Vec::new();
        let mut i: usize = 0;
        while i < self.targets.len()
            invariant
                i <= self.targets@.len(),
                pred == (|e: (BoneId, Option<BoneId>)| e.1 == Some(bone)),
                r@ == self.targets@.take(i as int).filter(pred).map_values(|e: (BoneId, Option<BoneId>)| e.0),
            decreases self.targets@.len() - i,
        {
            proof {
                let s = self.targets@.take(i as int + 1);
                assert(s.drop_last() =~= self.targets@.take(i as int));
                reveal(Seq::filter);
            }
            let e = self.targets[i];
            let matches = match e.1 {
                Some(b) => b.0 == bone.0,
                None => false,
            };
            if matches {
                r.push(e.0);
                proof {
                    assert(r@ =~= self.targets@.take(i as int + 1).filter(pred).map_values(|e: (BoneId, Option<BoneId>)| e.0));
                }
            } else {
                proof {
                    assert(r@ =~= self.targets@.take(i as int + 1).filter(pred).map_values(|e: (BoneId, Option<BoneId>)| e.0));
                }
            }
            i = i + 1;
        }
        proof {
            assert(self.targets@.take(self.targets@.len() as int) =~= self.targets@);
        }
        r
    }
}

} // verus!
