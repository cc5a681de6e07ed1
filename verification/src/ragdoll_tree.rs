//! The tree in which the ragdoll editor lists a ragdoll: each body, with
//! its colliders below it, then each joint.
use vstd::prelude::*;
use crate::ragdoll::{Body, Collider, Joint, Ragdoll};
use crate::tree::{branch_view, lemma_node_view, Tree, TreeInternal, TreeView};

verus! {

/// An element of a ragdoll, by its id.
#[derive(Debug, Clone, Copy, PartialEq, Eq, Structural, Hash)]
pub enum RagdollNode {
    Body(u128),
    Collider(u128),
    Joint(u128),
}

/// `shown` is the label of the element `node` labelled `label`: the label
/// itself, or, where it is empty, a text that `unnamed` gives for `node`.
pub open spec fn shown_label<F: Fn(RagdollNode) -> String>(shown: Seq<char>, label: Seq<char>, node: RagdollNode, unnamed: F) -> bool {
    if label.len() > 0 {
        shown == label
    } else {
        exists|s: String| s@ == shown && #[trigger] call_ensures(unnamed, (node,), s)
    }
}

/// `t` is the leaf of the collider `c`.
pub open spec fn collider_entry_is<C, F: Fn(RagdollNode) -> String>(t: TreeView<RagdollNode, RagdollNode>, id: u128, c: Collider<C>, unnamed: F) -> bool {
    t matches TreeView::Leaf(l, n) && n == RagdollNode::Collider(id) && shown_label(l, c.label@, RagdollNode::Collider(c.id), unnamed)
}

/// `t` is the entry of the body `b`: a leaf, or, where the body has
/// colliders, a node with a leaf for each of them in order.
pub open spec fn body_entry_is<B, C, F: Fn(RagdollNode) -> String>(t: TreeView<RagdollNode, RagdollNode>, b: Body<B>, colliders: Map<u128, Collider<C>>, unnamed: F) -> bool {
    let n = RagdollNode::Body(b.id);
    if b.colliders@.len() == 0 {
        t matches TreeView::Leaf(l, d) && d == n && shown_label(l, b.label@, n, unnamed)
    } else {
        &&& t matches TreeView::Node(l, d, kids) && d == n && shown_label(l, b.label@, n, unnamed)
        &&& t->Node_2.len() == b.colliders@.len()
        &&& forall|j: int| 0 <= j < b.colliders@.len() ==> collider_entry_is(#[trigger] t->Node_2[j], b.colliders@[j], colliders[b.colliders@[j]], unnamed)
    }
}

/// `t` is the leaf of the joint `jt`.
pub open spec fn joint_entry_is<J, F: Fn(RagdollNode) -> String>(t: TreeView<RagdollNode, RagdollNode>, jt: Joint<J>, unnamed: F) -> bool {
    t matches TreeView::Leaf(l, n) && n == RagdollNode::Joint(jt.id) && shown_label(l, jt.label@, n, unnamed)
}

/// Every collider that a body lists is in the ragdoll.
pub open spec fn body_colliders_known<B, C, J>(r: Ragdoll<B, C, J>) -> bool {
    forall|k: int, j: int| 0 <= k < r.bodies.entries@.len() && 0 <= j < r.bodies.entries@[k].1.colliders@.len() ==> r.collider_map().contains_key(#[trigger] r.bodies.entries@[k].1.colliders@[j])
}

fn element_label<F: Fn(RagdollNode) -> String>(label: &String, node: RagdollNode, unnamed: &F) -> (s: String)
    requires
        forall|n: RagdollNode| call_requires(*unnamed, (n,)),
    ensures
        shown_label(s@, label@, node, *unnamed),
{
    if label.as_str().is_empty() {
        unnamed(node)
    } else {
        label.clone()
    }
}

fn collider_leaf<B, C, J, F: Fn(RagdollNode) -> String>(ragdoll: &Ragdoll<B, C, J>, id: u128, unnamed: &F) -> (t: TreeInternal<RagdollNode, RagdollNode>)
    requires
        ragdoll.wf(),
        ragdoll.collider_map().contains_key(id),
        forall|n: RagdollNode| call_requires(*unnamed, (n,)),
    ensures
        collider_entry_is(t.tv(), id, ragdoll.collider_map()[id], *unnamed),
{
    let collider = ragdoll.colliders.get(&id).unwrap();
    TreeInternal::Leaf(element_label(&collider.label, RagdollNode::Collider(collider.id), unnamed), RagdollNode::Collider(id))
}

fn body_entry<B, C, J, F: Fn(RagdollNode) -> String>(ragdoll: &Ragdoll<B, C, J>, body: &Body<B>, unnamed: &F) -> (t: TreeInternal<RagdollNode, RagdollNode>)
    requires
        ragdoll.wf(),
        forall|j: int| 0 <= j < body.colliders@.len() ==> ragdoll.collider_map().contains_key(#[trigger] body.colliders@[j]),
        forall|n: RagdollNode| call_requires(*unnamed, (n,)),
    ensures
        body_entry_is(t.tv(), *body, ragdoll.collider_map(), *unnamed),
{
    let node = RagdollNode::Body(body.id);
    let label = element_label(&body.label, node, unnamed);
    if body.colliders.len() == 0 {
        return TreeInternal::Leaf(label, node);
    }
    let mut kids: Vec<TreeInternal<RagdollNode, RagdollNode>> = Vec::new();
    let mut j: usize = 0;
    while j < body.colliders.len()
        invariant
            ragdoll.wf(),
            forall|i: int| 0 <= i < body.colliders@.len() ==> ragdoll.collider_map().contains_key(#[trigger] body.colliders@[i]),
            forall|n: RagdollNode| call_requires(*unnamed, (n,)),
            j <= body.colliders.len(),
            kids@.len() == j,
            forall|i: int| 0 <= i < j ==> collider_entry_is((#[trigger] kids@[i]).tv(), body.colliders@[i], ragdoll.collider_map()[body.colliders@[i]], *unnamed),
        decreases body.colliders.len() - j,
    {
        let kid = collider_leaf(ragdoll, body.colliders[j], unnamed);
        kids.push(kid);
        j = j + 1;
    }
    proof {
        lemma_node_view(label, node, kids);
        assert forall|i: int| 0 <= i < kids@.len() implies #[trigger] branch_view(kids@)[i] == kids@[i].tv() by {}
    }
    TreeInternal::Node(label, node, kids)
}

fn joint_leaf<J, F: Fn(RagdollNode) -> String>(joint: &Joint<J>, unnamed: &F) -> (t: TreeInternal<RagdollNode, RagdollNode>)
    requires
        forall|n: RagdollNode| call_requires(*unnamed, (n,)),
    ensures
        joint_entry_is(t.tv(), *joint, *unnamed),
{
    let node = RagdollNode::Joint(joint.id);
    TreeInternal::Leaf(element_label(&joint.label, node, unnamed), node)
}

impl Tree<RagdollNode, RagdollNode> {
    /// The tree of a ragdoll: an entry for each body in order, holding a
    /// leaf for each of its colliders, then a leaf for each joint in order.
    /// An element without a label is shown by the text `unnamed` gives for
    /// it.
    pub fn ragdoll_tree<B, C, J, F: Fn(RagdollNode) -> String>(ragdoll: &Ragdoll<B, C, J>, unnamed: &F) -> (r: Self)
        requires
            ragdoll.wf(),
            body_colliders_known(*ragdoll),
            forall|n: RagdollNode| call_requires(*unnamed, (n,)),
        ensures
            r.entries().len() == ragdoll.bodies.entries@.len() + ragdoll.joints.entries@.len(),
            forall|k: int| 0 <= k < ragdoll.bodies.entries@.len() ==> body_entry_is(#[trigger] r.entries()[k], ragdoll.bodies.entries@[k].1, ragdoll.collider_map(), *unnamed),
            forall|k: int| 0 <= k < ragdoll.joints.entries@.len() ==> joint_entry_is(#[trigger] r.entries()[ragdoll.bodies.entries@.len() + k], ragdoll.joints.entries@[k].1, *unnamed),
    {
        let mut entries: Vec<TreeInternal<RagdollNode, RagdollNode>> = Vec::new();
        let nb = ragdoll.bodies.entries.len();
        let mut i: usize = 0;
        while i < nb
            invariant
                ragdoll.wf(),
                body_colliders_known(*ragdoll),
                forall|n: RagdollNode| call_requires(*unnamed, (n,)),
                nb == ragdoll.bodies.entries@.len(),
                i <= nb,
                entries@.len() == i,
                forall|k: int| 0 <= k < i ==> body_entry_is((#[trigger] entries@[k]).tv(), ragdoll.bodies.entries@[k].1, ragdoll.collider_map(), *unnamed),
            decreases nb - i,
        {
            let body = &ragdoll.bodies.entries[i].1;
            assert forall|j: int| 0 <= j < body.colliders@.len() implies ragdoll.collider_map().contains_key(#[trigger] body.colliders@[j]) by {
                assert(ragdoll.bodies.entries@[i as int].1.colliders@[j] == body.colliders@[j]);
            }
            let e = body_entry(ragdoll, body, unnamed);
            entries.push(e);
            i = i + 1;
        }
        let nj = ragdoll.joints.entries.len();
        let mut j: usize = 0;
        while j < nj
            invariant
                forall|n: RagdollNode| call_requires(*unnamed, (n,)),
                nj == ragdoll.joints.entries@.len(),
                j <= nj,
                entries@.len() == nb + j,
                forall|k: int| 0 <= k < nb ==> body_entry_is((#[trigger] entries@[k]).tv(), ragdoll.bodies.entries@[k].1, ragdoll.collider_map(), *unnamed),
                forall|k: int| 0 <= k < j ==> joint_entry_is((#[trigger] entries@[nb + k]).tv(), ragdoll.joints.entries@[k].1, *unnamed),
            decreases nj - j,
        {
            let e = joint_leaf(&ragdoll.joints.entries[j].1, unnamed);
            entries.push(e);
            j = j + 1;
        }
        let r = Tree(entries);
        assert forall|k: int| 0 <= k < r.0@.len() implies #[trigger] r.entries()[k] == r.0@[k].tv() by {}
        r
    }
}


// ------------------------------------------------------------- picking

/// A request raised from the ragdoll tree.
#[derive(Debug, Clone, Copy, PartialEq, Eq, Structural)]
pub enum RagdollTreeAction {
    CreateCollider(u128),
    CreateBody,
    CreateJoint,
    DeleteBody(u128),
    DeleteJoint(u128),
    DeleteCollider(u128),
}

/// What the ragdoll tree answered: the element under the pointer, the one
/// clicked, and the requests raised, in order.
#[derive(Debug)]
pub struct RagdollResponse {
    pub hovered: Option<RagdollNode>,
    pub clicked: Option<RagdollNode>,
    pub actions: Vec<RagdollTreeAction>,
}

impl RagdollResponse {
    /// The answers of two parts of the tree together: the first part's
    /// hovered and clicked elements where it has them, and the requests of
    /// both, the first part's first.
    pub fn combine(&self, other: &Self) -> (r: Self)
        ensures
            r.hovered == if self.hovered is Some { self.hovered } else { other.hovered },
            r.clicked == if self.clicked is Some { self.clicked } else { other.clicked },
            r.actions@ == self.actions@ + other.actions@,
    {
        let mut actions: Vec<RagdollTreeAction> = Vec::new();
        let mut i: usize = 0;
        while i < self.actions.len()
            invariant
                i <= self.actions@.len(),
                actions@ == self.actions@.take(i as int),
            decreases self.actions@.len() - i,
        {
            actions.push(self.actions[i]);
            proof {
                assert(self.actions@.take(i + 1) =~= self.actions@.take(i as int).push(self.actions@[i as int]));
            }
            i = i + 1;
        }
        let mut j: usize = 0;
        while j < other.actions.len()
            invariant
                j <= other.actions@.len(),
                actions@ == self.actions@ + other.actions@.take(j as int),
            decreases other.actions@.len() - j,
        {
            actions.push(other.actions[j]);
            proof {
                assert(other.actions@.take(j + 1) =~= other.actions@.take(j as int).push(other.actions@[j as int]));
                assert(self.actions@ + other.actions@.take(j + 1) =~= (self.actions@ + other.actions@.take(j as int)).push(other.actions@[j as int]));
            }
            j = j + 1;
        }
        proof {
            assert(self.actions@.take(self.actions@.len() as int) =~= self.actions@);
            assert(other.actions@.take(other.actions@.len() as int) =~= other.actions@);
        }
        RagdollResponse {
            hovered: if self.hovered.is_some() { self.hovered } else { other.hovered },
            clicked: if self.clicked.is_some() { self.clicked } else { other.clicked },
            actions,
        }
    }
}

/// What the ragdoll editor has selected.
#[derive(Debug, Clone, Copy, PartialEq, Eq, Structural)]
pub enum SelectedItem {
    Body(u128),
    Collider(u128),
    Joint(u128),
    Bone(u128),
}

impl SelectedItem {
    /// The selected body, if a body is selected.
    pub fn body(&self) -> (r: Option<u128>)
        ensures
            r == match *self {
                SelectedItem::Body(id) => Some(id),
                _ => None,
            },
    {
        match self {
            SelectedItem::Body(id) => Some(*id),
            _ => None,
        }
    }

    /// The selected collider, if a collider is selected.
    pub fn collider(&self) -> (r: Option<u128>)
        ensures
            r == match *self {
                SelectedItem::Collider(id) => Some(id),
                _ => None,
            },
    {
        match self {
            SelectedItem::Collider(id) => Some(*id),
            _ => None,
        }
    }

    /// The selected joint, if a joint is selected.
    pub fn joint(&self) -> (r: Option<u128>)
        ensures
            r == match *self {
                SelectedItem::Joint(id) => Some(id),
                _ => None,
            },
    {
        match self {
            SelectedItem::Joint(id) => Some(*id),
            _ => None,
        }
    }

    /// The selected bone, if a bone is selected.
    pub fn bone(&self) -> (r: Option<u128>)
        ensures
            r == match *self {
                SelectedItem::Bone(id) => Some(id),
                _ => None,
            },
    {
        match self {
            SelectedItem::Bone(id) => Some(*id),
            _ => None,
        }
    }
}

} // verus!
