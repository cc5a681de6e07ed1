//! Labelled trees of items, built from paths, and the results of picking
//! an item from one.
use vstd::prelude::*;

verus! {

/// One entry of a tree: a labelled leaf, or a labelled inner node with
/// children.
pub enum TreeInternal<I, L> {
    Leaf(String, L),
    Node(String, I, Vec<TreeInternal<I, L>>),
}

/// The mathematical value of a tree entry.
pub enum TreeView<I, L> {
    Leaf(Seq<char>, L),
    Node(Seq<char>, I, Seq<TreeView<I, L>>),
}

impl<I, L> TreeInternal<I, L> {
    pub open spec fn tv(self) -> TreeView<I, L>
        decreases self,
    {
        match self {
            TreeInternal::Leaf(s, l) => TreeView::Leaf(s@, l),
            TreeInternal::Node(s, i, c) => TreeView::Node(
                s@,
                i,
                Seq::new(
                    c@.len(),
                    |k: int|
                        if 0 <= k < c@.len() {
                            c@[k].tv()
                        } else {
                            TreeView::Leaf(Seq::empty(), arbitrary())
                        },
                ),
            ),
        }
    }
}

/// The entries of a branch by their values.
pub open spec fn branch_view<I, L>(branch: Seq<TreeInternal<I, L>>) -> Seq<TreeView<I, L>> {
    branch.map_values(|t: TreeInternal<I, L>| t.tv())
}

/// The labels of a path, by their values.
pub open spec fn label_views(parts: Seq<String>) -> Seq<Seq<char>> {
    parts.map_values(|s: String| s@)
}

/// Is `t` an inner node labelled `label`?
pub open spec fn is_node_labelled<I, L>(t: TreeView<I, L>, label: Seq<char>) -> bool {
    t matches TreeView::Node(l, _, _) && l == label
}

/// The position of the first inner node labelled `label` in `branch`.
pub open spec fn first_node_labelled<I, L>(branch: Seq<TreeView<I, L>>, label: Seq<char>) -> Option<
    int,
>
    decreases branch.len(),
{
    if branch.len() == 0 {
        None
    } else if is_node_labelled(branch[0], label) {
        Some(0)
    } else {
        match first_node_labelled(branch.drop_first(), label) {
            Some(k) => Some(k + 1),
            None => None,
        }
    }
}

/// `branch` with a leaf labelled `leaf` holding `value` added under the
/// inner nodes labelled `parts`, following the first node of each label and
/// adding the nodes that are missing.
pub open spec fn view_insert<L>(
    branch: Seq<TreeView<(), L>>,
    parts: Seq<Seq<char>>,
    leaf: Seq<char>,
    value: L,
) -> Seq<TreeView<(), L>>
    decreases parts.len(),
{
    if parts.len() == 0 {
        branch.push(TreeView::Leaf(leaf, value))
    } else {
        match first_node_labelled(branch, parts[0]) {
            Some(k) => match branch[k] {
                TreeView::Node(l, u, kids) => branch.update(
                    k,
                    TreeView::Node(l, u, view_insert(kids, parts.drop_first(), leaf, value)),
                ),
                TreeView::Leaf(_, _) => branch,
            },
            None => branch.push(
                TreeView::Node(
                    parts[0],
                    (),
                    view_insert(Seq::empty(), parts.drop_first(), leaf, value),
                ),
            ),
        }
    }
}

/// The view of an inner node is made of the views of its children.
pub proof fn lemma_node_view<I, L>(label: String, data: I, kids: Vec<TreeInternal<I, L>>)
    ensures
        TreeInternal::Node(label, data, kids).tv() == TreeView::Node(label@, data, branch_view(kids@)),
{
    let t = TreeInternal::Node(label, data, kids);
    assert(t.tv()->Node_2 =~= branch_view(kids@));
}

proof fn lemma_first_node_labelled<I, L>(branch: Seq<TreeView<I, L>>, label: Seq<char>)
    ensures
        match first_node_labelled(branch, label) {
            Some(k) => 0 <= k < branch.len() && is_node_labelled(branch[k], label) && forall|j: int|
                0 <= j < k ==> !is_node_labelled(#[trigger] branch[j], label),
            None => forall|j: int|
                0 <= j < branch.len() ==> !is_node_labelled(#[trigger] branch[j], label),
        },
    decreases branch.len(),
{
    if branch.len() > 0 && !is_node_labelled(branch[0], label) {
        lemma_first_node_labelled(branch.drop_first(), label);
        assert forall|j: int| 1 <= j < branch.len() implies branch[j] == branch.drop_first()[j - 1] by {}
    }
}

proof fn lemma_first_node_labelled_unique<I, L>(branch: Seq<TreeView<I, L>>, label: Seq<char>, k: int)
    requires
        0 <= k < branch.len(),
        is_node_labelled(branch[k], label),
        forall|j: int| 0 <= j < k ==> !is_node_labelled(#[trigger] branch[j], label),
    ensures
        first_node_labelled(branch, label) == Some(k),
{
    lemma_first_node_labelled(branch, label);
    match first_node_labelled(branch, label) {
        Some(k2) => {
            if k2 < k {
            } else if k2 > k {
            }
        },
        None => {},
    }
}

/// Adds a leaf under `parts[i..]` of `branch`.
fn insert_into<T>(
    branch: &mut Vec<TreeInternal<(), T>>,
    parts: &Vec<String>,
    i: usize,
    leaf_name: String,
    value: T,
)
    requires
        i <= parts@.len(),
    ensures
        branch_view(final(branch)@) == view_insert(
            branch_view(old(branch)@),
            label_views(parts@).skip(i as int),
            leaf_name@,
            value,
        ),
    decreases parts@.len() - i,
{
    let ghost old_view = branch_view(branch@);
    let ghost rest = label_views(parts@).skip(i as int);
    if i == parts.len() {
        branch.push(TreeInternal::Leaf(leaf_name, value));
        proof {
            assert(branch_view(branch@) =~= old_view.push(TreeView::Leaf(leaf_name@, value)));
        }
        return ;
    }
    proof {
        assert(rest[0] == parts@[i as int]@);
        assert(rest.drop_first() =~= label_views(parts@).skip(i as int + 1));
    }
    let mut k: usize = 0;
    let mut found: Option<usize> = None;
    while k < branch.len()
        invariant_except_break
            found is None,
        invariant
            k <= branch@.len(),
            old_view == branch_view(branch@),
            i < parts@.len(),
            forall|j: int|
                0 <= j < k ==> !is_node_labelled(#[trigger] old_view[j], parts@[i as int]@),
        ensures
            found matches Some(f) ==> f < branch@.len() && is_node_labelled(old_view[f as int], parts@[i as int]@) && forall|j: int|
                0 <= j < f ==> !is_node_labelled(#[trigger] old_view[j], parts@[i as int]@),
            found is None ==> forall|j: int|
                0 <= j < branch@.len() ==> !is_node_labelled(#[trigger] old_view[j], parts@[i as int]@),
        decreases branch@.len() - k,
    {
        let is_match = match &branch[k] {
            TreeInternal::Node(label, _, _) => *label == parts[i],
            TreeInternal::Leaf(_, _) => false,
        };
        if is_match {
            found = Some(k);
            break;
        }
        k = k + 1;
    }
    match found {
        Some(f) => {
            proof {
                lemma_first_node_labelled_unique(old_view, rest[0], f as int);
            }
            let entry = branch.remove(f);
            match entry {
                TreeInternal::Node(label, u, kids) => {
                    proof {
                        lemma_node_view(label, u, kids);
                        assert(old_view[f as int] == TreeView::Node(label@, u, branch_view(kids@)));
                    }
                    let mut kids = kids;
                    let ghost kids_view = branch_view(kids@);
                    insert_into(&mut kids, parts, i + 1, leaf_name, value);
                    let ghost new_kids = kids;
                    branch.insert(f, TreeInternal::Node(label, u, kids));
                    proof {
                        lemma_node_view(label, u, new_kids);
                        assert(branch_view(branch@) =~= old_view.update(
                            f as int,
                            TreeView::Node(
                                label@,
                                u,
                                view_insert(kids_view, rest.drop_first(), leaf_name@, value),
                            ),
                        ));
                    }
                },
                TreeInternal::Leaf(label, l) => {
                    proof {
                        assert(false);
                    }
                    branch.insert(f, TreeInternal::Leaf(label, l));
                },
            }
        },
        None => {
            proof {
                lemma_first_node_labelled(old_view, rest[0]);
            }
            let mut kids: Vec<TreeInternal<(), T>> = Vec::new();
            insert_into(&mut kids, parts, i + 1, leaf_name, value);
            let label = parts[i].clone();
            let ghost new_kids = kids;
            branch.push(TreeInternal::Node(label, (), kids));
            proof {
                lemma_node_view(label, (), new_kids);
                assert(branch_view(Seq::<TreeInternal<(), T>>::empty()) =~= Seq::<TreeView<(), T>>::empty());
                assert(branch_view(branch@) =~= old_view.push(
                    TreeView::Node(
                        rest[0],
                        (),
                        view_insert(Seq::empty(), rest.drop_first(), leaf_name@, value),
                    ),
                ));
            }
        },
    }
}

/// The branch reached from `branch` by following, for each label of
/// `parts`, the first inner node with that label.
pub open spec fn branch_at_path<L>(branch: Seq<TreeView<(), L>>, parts: Seq<Seq<char>>) -> Option<
    Seq<TreeView<(), L>>,
>
    decreases parts.len(),
{
    if parts.len() == 0 {
        Some(branch)
    } else {
        match first_node_labelled(branch, parts[0]) {
            Some(k) => match branch[k] {
                TreeView::Node(_, _, kids) => branch_at_path(kids, parts.drop_first()),
                TreeView::Leaf(_, _) => None,
            },
            None => None,
        }
    }
}

/// A leaf inserted under a path is found at the end of the branch that the
/// path leads to.
pub proof fn law_inserted_leaf_found<L>(
    branch: Seq<TreeView<(), L>>,
    parts: Seq<Seq<char>>,
    leaf: Seq<char>,
    value: L,
)
    ensures
        branch_at_path(view_insert(branch, parts, leaf, value), parts) matches Some(b) && b.len() > 0
            && b.last() == TreeView::<(), L>::Leaf(leaf, value),
    decreases parts.len(),
{
    if parts.len() > 0 {
        let result = view_insert(branch, parts, leaf, value);
        lemma_first_node_labelled(branch, parts[0]);
        law_inserted_leaf_found(
            match first_node_labelled(branch, parts[0]) {
                Some(k) => match branch[k] {
                    TreeView::Node(_, _, kids) => kids,
                    TreeView::Leaf(_, _) => Seq::empty(),
                },
                None => Seq::empty(),
            },
            parts.drop_first(),
            leaf,
            value,
        );
        match first_node_labelled(branch, parts[0]) {
            Some(k) => {
                lemma_first_node_labelled_unique(result, parts[0], k);
            },
            None => {
                lemma_first_node_labelled_unique(result, parts[0], branch.len() as int);
            },
        }
    }
}

/// Inserting under a path leaves every other entry of the branch as it was
/// and adds at most one entry.
pub proof fn law_insert_keeps_other_entries<L>(
    branch: Seq<TreeView<(), L>>,
    parts: Seq<Seq<char>>,
    leaf: Seq<char>,
    value: L,
)
    ensures
        ({
            let result = view_insert(branch, parts, leaf, value);
            &&& result.len() == branch.len() || result.len() == branch.len() + 1
            &&& forall|j: int|
                0 <= j < branch.len() && (parts.len() == 0 || first_node_labelled(branch, parts[0])
                    != Some(j)) ==> #[trigger] result[j] == branch[j]
        }),
{
    if parts.len() > 0 {
        lemma_first_node_labelled(branch, parts[0]);
    }
}

/// A tree: its top-level entries.
pub struct Tree<I, L>(pub Vec<TreeInternal<I, L>>);

impl<I, L> Tree<I, L> {
    /// The top-level entries by their values.
    pub open spec fn entries(&self) -> Seq<TreeView<I, L>> {
        branch_view(self.0@)
    }

    pub fn new() -> (r: Self)
        ensures
            r.entries() == Seq::<TreeView<I, L>>::empty(),
    {
        let r = Tree(Vec::new());
        assert(r.entries() =~= Seq::<TreeView<I, L>>::empty());
        r
    }
}

impl<I, L> Default for Tree<I, L> {
    fn default() -> (r: Self)
        ensures
            r.entries() == Seq::<TreeView<I, L>>::empty(),
    {
        Tree::new()
    }
}

/// A branch with a leaf added at `path`: the last label names the leaf and
/// the others the inner nodes above it. An empty path adds nothing.
pub open spec fn view_insert_path<L>(branch: Seq<TreeView<(), L>>, path: Seq<Seq<char>>, value: L) -> Seq<
    TreeView<(), L>,
> {
    if path.len() == 0 {
        branch
    } else {
        view_insert(branch, path.drop_last(), path.last(), value)
    }
}

/// The tree built by inserting each path with its value, in order.
pub open spec fn paths_tree<L>(paths: Seq<(Vec<String>, L)>) -> Seq<TreeView<(), L>>
    decreases paths.len(),
{
    if paths.len() == 0 {
        Seq::empty()
    } else {
        view_insert_path(
            paths_tree(paths.drop_last()),
            label_views(paths.last().0@),
            paths.last().1,
        )
    }
}

impl<T> Tree<(), T> {
    /// Adds a leaf holding `value` at the path `parts`: the last part names
    /// the leaf, the others the inner nodes above it, which are reused when
    /// present and added when missing. An empty path adds nothing.
    pub fn insert(&mut self, parts: Vec<String>, value: T)
        ensures
            final(self).entries() == view_insert_path(
                old(self).entries(),
                label_views(parts@),
                value,
            ),
    {
        let mut parts = parts;
        let ghost all = label_views(parts@);
        let leaf_name = match parts.pop() {
            Some(l) => l,
            None => {
                return ;
            },
        };
        proof {
            assert(label_views(parts@) =~= all.drop_last());
            assert(label_views(parts@).skip(0) =~= label_views(parts@));
        }
        insert_into(&mut self.0, &parts, 0, leaf_name, value);
    }

    /// The tree of the given paths, each ending in a leaf holding its value.
    pub fn from_paths(paths: Vec<(Vec<String>, T)>) -> (r: Self)
        ensures
            r.entries() == paths_tree(paths@),
    {
        let mut tree = Tree::new();
        let mut rest = paths;
        let ghost all = rest@;
        let ghost mut done: int = 0;
        while rest.len() > 0
            invariant
                0 <= done <= all.len(),
                rest@ == all.skip(done),
                tree.entries() == paths_tree(all.take(done)),
            decreases rest@.len(),
        {
            let (parts, value) = rest.remove(0);
            proof {
                assert(all.take(done + 1).drop_last() =~= all.take(done));
                assert(all.take(done + 1).last() == all[done]);
                assert(all.skip(done).drop_first() =~= all.skip(done + 1));
            }
            tree.insert(parts, value);
            proof {
                done = done + 1;
            }
        }
        proof {
            assert(all.take(done) =~= all);
        }
        tree
    }
}

/// An answer that a tree's items can combine when several parts of a tree
/// answer at once.
pub trait TreeResponse: Sized {
    spec fn spec_combine(&self, other: &Self) -> Self;

    fn combine(&self, other: &Self) -> (r: Self)
        ensures
            r == self.spec_combine(other),
    ;
}

impl TreeResponse for () {
    open spec fn spec_combine(&self, other: &Self) -> Self {
        ()
    }

    fn combine(&self, other: &Self) -> (r: Self) {
    }
}

/// A bone of a skeleton.
#[derive(Debug, Clone, Copy, PartialEq, Eq, Hash)]
pub struct BoneId(pub u128);

/// An entry of a skeleton tree.
#[derive(Debug, Clone, Copy, PartialEq, Eq, Hash)]
pub struct SkeletonNode {
    pub bone_id: BoneId,
}

/// Which bone of a skeleton tree the pointer is over and which was clicked.
#[derive(Debug, Clone, Copy, PartialEq, Eq)]
pub struct SkeletonResponse {
    pub hovered: Option<BoneId>,
    pub clicked: Option<BoneId>,
}

impl TreeResponse for SkeletonResponse {
    open spec fn spec_combine(&self, other: &Self) -> Self {
        SkeletonResponse {
            hovered: if self.hovered is Some {
                self.hovered
            } else {
                other.hovered
            },
            clicked: if self.clicked is Some {
                self.clicked
            } else {
                other.clicked
            },
        }
    }

    fn combine(&self, other: &Self) -> (r: Self) {
        SkeletonResponse {
            hovered: if self.hovered.is_some() {
                self.hovered
            } else {
                other.hovered
            },
            clicked: if self.clicked.is_some() {
                self.clicked
            } else {
                other.clicked
            },
        }
    }
}

/// What picking from a tree gave: a leaf's data, an inner node's data, or
/// nothing, with the answer of what was shown.
pub enum TreeResult<I, L, O> {
    Leaf(L, O),
    Node(I, O),
    Empty,
}

impl<I, L, O> Default for TreeResult<I, L, O> {
    fn default() -> (r: Self)
        ensures
            r is Empty,
    {
        TreeResult::Empty
    }
}

impl<I, L, O: TreeResponse> TreeResult<I, L, O> {
    /// What [`TreeResult::or`] gives.
    pub open spec fn spec_or(self, other: Self) -> Self {
        match self {
            TreeResult::Empty => other,
            TreeResult::Leaf(data, response) => match other {
                TreeResult::Empty => TreeResult::Leaf(data, response),
                TreeResult::Leaf(_, o) => TreeResult::Leaf(data, response.spec_combine(&o)),
                TreeResult::Node(_, o) => TreeResult::Leaf(data, response.spec_combine(&o)),
            },
            TreeResult::Node(data, response) => match other {
                TreeResult::Empty => TreeResult::Node(data, response),
                TreeResult::Leaf(_, o) => TreeResult::Node(data, response.spec_combine(&o)),
                TreeResult::Node(_, o) => TreeResult::Node(data, response.spec_combine(&o)),
            },
        }
    }

    /// The first of two results that picked something, with both answers
    /// combined.
    pub fn or(self, other: Self) -> (r: Self)
        ensures
            r == self.spec_or(other),
    {
        match self {
            TreeResult::Empty => other,
            TreeResult::Leaf(data, response) => match other {
                TreeResult::Empty => TreeResult::Leaf(data, response),
                TreeResult::Leaf(_, o) => TreeResult::Leaf(data, response.combine(&o)),
                TreeResult::Node(_, o) => TreeResult::Leaf(data, response.combine(&o)),
            },
            TreeResult::Node(data, response) => match other {
                TreeResult::Empty => TreeResult::Node(data, response),
                TreeResult::Leaf(_, o) => TreeResult::Node(data, response.combine(&o)),
                TreeResult::Node(_, o) => TreeResult::Node(data, response.combine(&o)),
            },
        }
    }
}

/// The results of several parts of a tree combined left to right with `or`.
pub open spec fn or_all<I, L, O: TreeResponse>(results: Seq<TreeResult<I, L, O>>) -> TreeResult<I, L, O>
    decreases results.len(),
{
    if results.len() == 0 {
        TreeResult::Empty
    } else {
        or_all(results.drop_last()).spec_or(results.last())
    }
}

/// Combines the results of several parts of a tree, left to right.
pub fn select_from_results<I, L, O: TreeResponse>(results: Vec<TreeResult<I, L, O>>) -> (r: TreeResult<
    I,
    L,
    O,
>)
    ensures
        r == or_all(results@),
{
    let mut res = TreeResult::Empty;
    let mut rest = results;
    let ghost all = rest@;
    let ghost mut done: int = 0;
    while rest.len() > 0
        invariant
            0 <= done <= all.len(),
            rest@ == all.skip(done),
            res == or_all(all.take(done)),
        decreases rest@.len(),
    {
        let next = rest.remove(0);
        proof {
            assert(all.take(done + 1).drop_last() =~= all.take(done));
            assert(all.take(done + 1).last() == all[done]);
            assert(all.skip(done).drop_first() =~= all.skip(done + 1));
        }
        res = res.or(next);
        proof {
            done = done + 1;
        }
    }
    proof {
        assert(all.take(done) =~= all);
    }
    res
}

/// Combining results none of which picked anything gives nothing.
pub proof fn law_all_empty_combine_to_empty<I, L, O: TreeResponse>(results: Seq<TreeResult<I, L, O>>)
    requires
        forall|j: int| 0 <= j < results.len() ==> #[trigger] results[j] is Empty,
    ensures
        or_all(results) is Empty,
    decreases results.len(),
{
    if results.len() > 0 {
        law_all_empty_combine_to_empty(results.drop_last());
        assert(results[results.len() - 1] is Empty);
    }
}

/// Where only one of the results picked something (the others are empty),
/// the combined result is that one, as it is; a list of one result combines
/// to that result.
pub proof fn law_only_pick_is_kept<I, L, O: TreeResponse>(results: Seq<TreeResult<I, L, O>>, i: int)
    requires
        0 <= i < results.len(),
        forall|j: int| 0 <= j < results.len() && j != i ==> #[trigger] results[j] is Empty,
    ensures
        or_all(results) == results[i],
    decreases results.len(),
{
    let n = results.len() - 1;
    let rest = results.drop_last();
    if i == n {
        assert forall|j: int| 0 <= j < rest.len() implies #[trigger] rest[j] is Empty by {
            assert(rest[j] == results[j]);
        }
        law_all_empty_combine_to_empty(rest);
    } else {
        assert forall|j: int| 0 <= j < rest.len() && j != i implies #[trigger] rest[j] is Empty by {
            assert(rest[j] == results[j]);
        }
        law_only_pick_is_kept(rest, i);
        assert(rest[i] == results[i]);
        assert(results[n] is Empty);
    }
}

/// The combined result picks what the first result that picked anything
/// picked: results before it being empty, the combination is a leaf (or an
/// inner node) with that result's data.
pub proof fn law_first_pick_wins<I, L, O: TreeResponse>(results: Seq<TreeResult<I, L, O>>, i: int)
    requires
        0 <= i < results.len(),
        !(results[i] is Empty),
        forall|j: int| 0 <= j < i ==> #[trigger] results[j] is Empty,
    ensures
        results[i] matches TreeResult::Leaf(d, _) ==> or_all(results) matches TreeResult::Leaf(d2, _) && d2 == d,
        results[i] matches TreeResult::Node(d, _) ==> or_all(results) matches TreeResult::Node(d2, _) && d2 == d,
    decreases results.len(),
{
    let n = results.len() - 1;
    let rest = results.drop_last();
    if i == n {
        assert forall|j: int| 0 <= j < rest.len() implies #[trigger] rest[j] is Empty by {
            assert(rest[j] == results[j]);
        }
        law_all_empty_combine_to_empty(rest);
    } else {
        assert forall|j: int| 0 <= j < i implies #[trigger] rest[j] is Empty by {
            assert(rest[j] == results[j]);
        }
        assert(rest[i] == results[i]);
        law_first_pick_wins(rest, i);
    }
}

/// `Empty` is neutral for `or` on both sides.
pub proof fn law_or_empty_neutral<I, L, O: TreeResponse>(r: TreeResult<I, L, O>)
    ensures
        TreeResult::<I, L, O>::Empty.spec_or(r) == r,
        r.spec_or(TreeResult::<I, L, O>::Empty) == r,
{
}

/// The data of `a.or(b)` is that of `a` unless `a` is empty.
pub proof fn law_or_keeps_first_pick<I, L, O: TreeResponse>(a: TreeResult<I, L, O>, b: TreeResult<I, L, O>)
    ensures
        a is Empty ==> a.spec_or(b) == b,
        a matches TreeResult::Leaf(d, _) ==> a.spec_or(b) matches TreeResult::Leaf(d2, _) && d2 == d,
        a matches TreeResult::Node(d, _) ==> a.spec_or(b) matches TreeResult::Node(d2, _) && d2 == d,
{
}

} // verus!
