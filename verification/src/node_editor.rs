//! The interaction rules of the node editor: which element the pointer is
//! over, what a click starts, how a drag ends, which links get created,
//! dropped or detached, and which graph changes a frame reports.
//!
//! Everything that needs coordinates (hit tests, distances, drawing) is done
//! by the caller, who hands the outcome in as plain values; positions that
//! only travel through a change are of the caller's type `P`.
use vstd::prelude::*;

verus! {

/// A change to the graph made in the node editor during one frame.
#[derive(Debug, Clone)]
pub enum GraphChange<P> {
    /// A link from the first pin (an output) to the second (an input).
    LinkCreated(usize, usize),
    LinkRemoved(usize),
    /// A node and its new position.
    NodeMoved(usize, P),
    NodeRemoved(usize),
}

/// Which keyboard modifiers are held.
#[derive(Debug, Clone, Copy, PartialEq, Eq)]
pub struct ModifierKeys {
    pub alt: bool,
    pub ctrl: bool,
    pub shift: bool,
    pub command: bool,
}

/// The modifier that has to be held for some pointer action.
#[derive(Debug, Clone, Copy, PartialEq, Eq, Structural)]
pub enum Modifier {
    Alt,
    Crtl,
    Shift,
    Command,
    NoModifier,
}

impl Modifier {
    pub open spec fn spec_is_active(&self, mods: ModifierKeys) -> bool {
        match self {
            Modifier::Alt => mods.alt,
            Modifier::Crtl => mods.ctrl,
            Modifier::Shift => mods.shift,
            Modifier::Command => mods.command,
            Modifier::NoModifier => false,
        }
    }

    /// Is this modifier held?
    pub fn is_active(&self, mods: &ModifierKeys) -> (b: bool)
        ensures
            b == self.spec_is_active(*mods),
    {
        match self {
            Modifier::Alt => mods.alt,
            Modifier::Crtl => mods.ctrl,
            Modifier::Shift => mods.shift,
            Modifier::Command => mods.command,
            Modifier::NoModifier => false,
        }
    }
}

/// The modifiers the editor's pointer actions need.
#[derive(Debug, Clone, Copy)]
pub struct IO {
    /// Held with the primary button, it pans like the alternative button.
    pub emulate_three_button_mouse: Modifier,
    /// Held while clicking a link, it detaches the link instead of selecting it.
    pub link_detatch_with_modifier_click: Modifier,
}

impl Default for IO {
    fn default() -> (r: Self)
        ensures
            r.emulate_three_button_mouse == Modifier::NoModifier,
            r.link_detatch_with_modifier_click == Modifier::NoModifier,
    {
        IO { emulate_three_button_mouse: Modifier::NoModifier, link_detatch_with_modifier_click: Modifier::NoModifier }
    }
}

/// What the pointer and keyboard did this frame.
#[derive(Debug, Clone, Copy)]
pub struct FrameInput {
    /// The pointer is over the canvas.
    pub hovering: bool,
    /// The primary button is down.
    pub primary_down: bool,
    /// The alternative (panning) button is down.
    pub alt_button_down: bool,
    pub modifiers: ModifierKeys,
    pub delete_pressed: bool,
}

/// The pointer state kept from one frame to the next.
#[derive(Debug, Clone, Copy, PartialEq, Eq)]
pub struct InteractionState {
    pub left_mouse_clicked: bool,
    pub left_mouse_released: bool,
    pub alt_mouse_clicked: bool,
    pub left_mouse_dragging: bool,
    pub alt_mouse_dragging: bool,
    pub mouse_in_canvas: bool,
    pub link_detatch_with_modifier_click: bool,
    pub delete_pressed: bool,
}

impl InteractionState {
    pub fn new() -> (r: Self)
        ensures
            !r.left_mouse_clicked && !r.left_mouse_released && !r.alt_mouse_clicked,
            !r.left_mouse_dragging && !r.alt_mouse_dragging && !r.mouse_in_canvas,
            !r.link_detatch_with_modifier_click && !r.delete_pressed,
    {
        InteractionState {
            left_mouse_clicked: false,
            left_mouse_released: false,
            alt_mouse_clicked: false,
            left_mouse_dragging: false,
            alt_mouse_dragging: false,
            mouse_in_canvas: false,
            link_detatch_with_modifier_click: false,
            delete_pressed: false,
        }
    }

    /// The next frame's pointer state. A button press is a click in the
    /// frame it starts and a drag in the frames after; letting go of the
    /// primary button after a click or drag is a release.
    pub fn update(&self, input: &FrameInput, io: &IO) -> (r: Self)
        ensures
            r.mouse_in_canvas == input.hovering,
            r.left_mouse_released == ((self.left_mouse_clicked || self.left_mouse_dragging)
                && !input.primary_down),
            r.left_mouse_dragging == ((self.left_mouse_clicked || self.left_mouse_dragging)
                && input.primary_down),
            r.left_mouse_clicked == (input.primary_down && !(self.left_mouse_clicked
                || self.left_mouse_dragging)),
            ({
                let alt = io.emulate_three_button_mouse.spec_is_active(input.modifiers)
                    || input.alt_button_down;
                &&& r.alt_mouse_dragging == ((self.alt_mouse_clicked || self.alt_mouse_dragging)
                    && alt)
                &&& r.alt_mouse_clicked == (alt && !(self.alt_mouse_clicked
                    || r.alt_mouse_dragging))
            }),
            r.link_detatch_with_modifier_click == io.link_detatch_with_modifier_click.spec_is_active(
                input.modifiers,
            ),
            r.delete_pressed == input.delete_pressed,
    {
        let left = input.primary_down;
        let was_left = self.left_mouse_clicked || self.left_mouse_dragging;
        let alt = io.emulate_three_button_mouse.is_active(&input.modifiers) || input.alt_button_down;
        let alt_dragging = (self.alt_mouse_clicked || self.alt_mouse_dragging) && alt;
        InteractionState {
            left_mouse_clicked: left && !was_left,
            left_mouse_released: was_left && !left,
            alt_mouse_clicked: alt && !(self.alt_mouse_clicked || alt_dragging),
            left_mouse_dragging: was_left && left,
            alt_mouse_dragging: alt_dragging,
            mouse_in_canvas: input.hovering,
            link_detatch_with_modifier_click: io.link_detatch_with_modifier_click.is_active(
                &input.modifiers,
            ),
            delete_pressed: input.delete_pressed,
        }
    }
}

/// What happened to links during the frame.
#[derive(Debug, Clone, Copy, PartialEq, Eq)]
pub struct ElementStateChange {
    pub link_started: bool,
    pub link_dropped: bool,
    pub link_created: bool,
}

impl ElementStateChange {
    pub fn new() -> (r: Self)
        ensures
            !r.link_started && !r.link_dropped && !r.link_created,
    {
        ElementStateChange { link_started: false, link_dropped: false, link_created: false }
    }

    pub fn reset(&mut self)
        ensures
            !final(self).link_started && !final(self).link_dropped && !final(self).link_created,
    {
        self.link_started = false;
        self.link_dropped = false;
        self.link_created = false;
    }
}

/// Which end of a connection a pin is.
#[derive(Debug, Clone, Copy, PartialEq, Eq, Structural)]
pub enum PinType {
    Unset,
    Input,
    Output,
}

/// The pin flags of the editor, as bits of a pin's flag word.
#[derive(Debug, Clone, Copy, PartialEq, Eq, Structural)]
pub enum AttributeFlags {
    NoFlags,
    /// Dragging from a linked pin detaches the link instead of creating a new one.
    EnableLinkDetachWithDragClick,
    /// Snapping onto a pin creates the link without a release.
    EnableLinkCreationOnSnap,
}

impl AttributeFlags {
    pub open spec fn spec_bits(&self) -> usize {
        match self {
            AttributeFlags::NoFlags => 0,
            AttributeFlags::EnableLinkDetachWithDragClick => 1,
            AttributeFlags::EnableLinkCreationOnSnap => 2,
        }
    }

    /// The bit of this flag.
    pub fn bits(&self) -> (b: usize)
        ensures
            b == self.spec_bits(),
    {
        match self {
            AttributeFlags::NoFlags => 0,
            AttributeFlags::EnableLinkDetachWithDragClick => 1,
            AttributeFlags::EnableLinkCreationOnSnap => 2,
        }
    }
}

/// The shape a pin is drawn with.
#[derive(Debug, Clone, Copy, PartialEq, Eq, Structural)]
pub enum PinShape {
    Circle,
    CircleFilled,
    Triangle,
    TriangleFilled,
    Quad,
    QuadFilled,
}

impl Default for PinShape {
    fn default() -> (r: Self)
        ensures
            r == PinShape::CircleFilled,
    {
        PinShape::CircleFilled
    }
}

/// Something with an integer id that it can be made from.
pub trait Id: Sized {
    fn id(&self) -> usize;

    fn new(id: usize) -> Self;
}

/// The first position of `x` in `v`.
pub fn index_of(v: &Vec<usize>, x: usize) -> (r: Option<usize>)
    ensures
        opt_int(r) == v@.index_of_first(x),
{
    proof {
        v@.index_of_first_ensures(x);
    }
    let mut i: usize = 0;
    while i < v.len()
        invariant
            i <= v@.len(),
            forall|j: int| 0 <= j < i ==> v@[j] != x,
        decreases v@.len() - i,
    {
        if v[i] == x {
            proof {
                v@.index_of_first_ensures(x);
                if v@.index_of_first(x) != Some(i as int) {
                    let k = v@.index_of_first(x)->0;
                    assert(k < i || k > i);
                }
            }
            return Some(i);
        }
        i = i + 1;
    }
    None
}

/// An optional `usize` read as an optional integer.
pub open spec fn opt_int(o: Option<usize>) -> Option<int> {
    match o {
        Some(i) => Some(i as int),
        None => None,
    }
}

/// Is `x` in `v`?
pub fn vec_contains(v: &Vec<usize>, x: usize) -> (b: bool)
    ensures
        b == v@.contains(x),
{
    let mut i: usize = 0;
    while i < v.len()
        invariant
            i <= v@.len(),
            forall|j: int| 0 <= j < i ==> v@[j] != x,
        decreases v@.len() - i,
    {
        if v[i] == x {
            return true;
        }
        i = i + 1;
    }
    false
}

/// The elements of `src`, in order, whose membership in `set` is `members`.
/// The ids of `nodes`, in their order.
pub open spec fn node_ids_of(nodes: Seq<NodeInfo>) -> Seq<usize> {
    nodes.map_values(|n: NodeInfo| n.id)
}

/// Each value of `s` once, where it first occurs.
pub open spec fn distinct_in_order(s: Seq<usize>) -> Seq<usize>
    decreases s.len(),
{
    if s.len() == 0 {
        s
    } else {
        let r = distinct_in_order(s.drop_last());
        if r.contains(s.last()) {
            r
        } else {
            r.push(s.last())
        }
    }
}

proof fn lemma_distinct_in_order(s: Seq<usize>)
    ensures
        distinct_in_order(s).no_duplicates(),
        forall|x: usize| distinct_in_order(s).contains(x) <==> s.contains(x),
    decreases s.len(),
{
    if s.len() > 0 {
        let d = s.drop_last();
        lemma_distinct_in_order(d);
        let r = distinct_in_order(d);
        assert forall|x: usize| s.contains(x) <==> d.contains(x) || x == s.last() by {
            if s.contains(x) && x != s.last() {
                let j = choose|j: int| 0 <= j < s.len() && s[j] == x;
                assert(d[j] == x);
            }
            if d.contains(x) {
                let j = choose|j: int| 0 <= j < d.len() && d[j] == x;
                assert(s[j] == x);
            }
            if x == s.last() {
                assert(s[s.len() - 1] == x);
            }
        }
        if !r.contains(s.last()) {
            let t = r.push(s.last());
            assert forall|x: usize| t.contains(x) <==> r.contains(x) || x == s.last() by {
                if t.contains(x) && x != s.last() {
                    let j = choose|j: int| 0 <= j < t.len() && t[j] == x;
                    assert(r[j] == x);
                }
                if r.contains(x) {
                    let j = choose|j: int| 0 <= j < r.len() && r[j] == x;
                    assert(t[j] == x);
                }
                if x == s.last() {
                    assert(t[r.len() as int] == x);
                }
            }
        }
    }
}

/// The values of `v`, each once, where it first occurs.
pub fn distinct_values(v: &Vec<usize>) -> (r: Vec<usize>)
    ensures
        r@ == distinct_in_order(v@),
{
    let mut r: Vec<usize> = Vec::new();
    let mut i: usize = 0;
    while i < v.len()
        invariant
            i <= v@.len(),
            r@ == distinct_in_order(v@.take(i as int)),
        decreases v@.len() - i,
    {
        proof {
            assert(v@.take(i as int + 1).drop_last() =~= v@.take(i as int));
            assert(v@.take(i as int + 1).last() == v@[i as int]);
        }
        if !vec_contains(&r, v[i]) {
            r.push(v[i]);
        }
        i = i + 1;
    }
    proof {
        assert(v@.take(v@.len() as int) =~= v@);
    }
    r
}

/// The depth order of a frame: the node ids `ids` new to the previous
/// order `prev` first, each once, in the order given, then the known ones,
/// each once, in their previous order.
pub open spec fn depth_order(ids: Seq<usize>, prev: Seq<usize>) -> Seq<usize> {
    distinct_in_order(ids).filter(|x: usize| prev.contains(x) == false) + distinct_in_order(prev).filter(
        |x: usize| ids.contains(x) == true,
    )
}

proof fn lemma_filter_keeps_distinct(s: Seq<usize>, p: spec_fn(usize) -> bool)
    requires
        s.no_duplicates(),
    ensures
        s.filter(p).no_duplicates(),
    decreases s.len(),
{
    reveal(Seq::filter);
    if s.len() > 0 {
        let d = s.drop_last();
        lemma_filter_keeps_distinct(d, p);
        if p(s.last()) {
            if d.filter(p).contains(s.last()) {
                d.lemma_filter_contains_rev(p, s.last());
                let j = choose|j: int| 0 <= j < d.len() && d[j] == s.last();
                assert(s[j] == s[s.len() - 1]);
            }
            assert(s.filter(p) == d.filter(p).push(s.last()));
        } else {
            assert(s.filter(p) == d.filter(p));
        }
    }
}

/// The new depth order holds each node id of the frame exactly once: it
/// is a permutation of the frame's (distinct) node ids.
pub proof fn law_depth_order_is_permutation(ids: Seq<usize>, prev: Seq<usize>)
    ensures
        depth_order(ids, prev).no_duplicates(),
        depth_order(ids, prev).to_set() == ids.to_set(),
        depth_order(ids, prev).len() == ids.to_set().len(),
{
    let p1 = |x: usize| prev.contains(x) == false;
    let p2 = |x: usize| ids.contains(x) == true;
    let di = distinct_in_order(ids);
    let dp = distinct_in_order(prev);
    lemma_distinct_in_order(ids);
    lemma_distinct_in_order(prev);
    let a = di.filter(p1);
    let b = dp.filter(p2);
    lemma_filter_keeps_distinct(di, p1);
    lemma_filter_keeps_distinct(dp, p2);
    di.filter_lemma(p1);
    dp.filter_lemma(p2);
    assert forall|i: int, j: int| 0 <= i < a.len() && 0 <= j < b.len() implies a[i] != b[j] by {
        assert(p1(a[i]));
        assert(b.contains(b[j]));
        dp.lemma_filter_contains_rev(p2, b[j]);
    }
    vstd::seq_lib::lemma_no_dup_in_concat(a, b);
    let r = a + b;
    assert forall|x: usize| r.to_set().contains(x) <==> ids.to_set().contains(x) by {
        if r.contains(x) {
            let k = choose|k: int| 0 <= k < r.len() && r[k] == x;
            if k < a.len() {
                assert(a.contains(x));
                di.lemma_filter_contains_rev(p1, x);
            } else {
                assert(b[k - a.len()] == x);
                assert(p2(b[k - a.len()]));
            }
        }
        if ids.contains(x) {
            assert(di.contains(x));
            let k = choose|k: int| 0 <= k < di.len() && di[k] == x;
            if !prev.contains(x) {
                assert(a.contains(di[k]));
                let m = choose|m: int| 0 <= m < a.len() && a[m] == x;
                assert(r[m] == x);
            } else {
                assert(dp.contains(x));
                let k2 = choose|k2: int| 0 <= k2 < dp.len() && dp[k2] == x;
                assert(b.contains(dp[k2]));
                let m = choose|m: int| 0 <= m < b.len() && b[m] == x;
                assert(r[a.len() + m] == x);
            }
        }
    }
    assert(r.to_set() =~= ids.to_set());
    r.unique_seq_to_set();
}

pub fn filter_by_membership(src: &Vec<usize>, set: &Vec<usize>, members: bool) -> (r: Vec<usize>)
    ensures
        r@ == src@.filter(|x: usize| set@.contains(x) == members),
{
    let ghost pred = |x: usize| set@.contains(x) == members;
    let mut r: Vec<usize> = Vec::new();
    let mut i: usize = 0;
    while i < src.len()
        invariant
            i <= src@.len(),
            r@ == src@.take(i as int).filter(pred),
            pred == (|x: usize| set@.contains(x) == members),
        decreases src@.len() - i,
    {
        proof {
            reveal(Seq::filter);
            assert(src@.take(i as int + 1).drop_last() =~= src@.take(i as int));
            assert(src@.take(i as int + 1).last() == src@[i as int]);
        }
        if vec_contains(set, src[i]) == members {
            r.push(src[i]);
        }
        i = i + 1;
    }
    proof {
        assert(src@.take(src@.len() as int) =~= src@);
    }
    r
}

/// `order` with `id` moved to its end, when it is there.
pub open spec fn raise(order: Seq<usize>, id: usize) -> Seq<usize> {
    if order.contains(id) {
        order.remove_value(id).push(id)
    } else {
        order
    }
}

/// `order` with each of `ids` in turn moved to its end.
pub open spec fn raise_all(order: Seq<usize>, ids: Seq<usize>) -> Seq<usize>
    decreases ids.len(),
{
    if ids.len() == 0 {
        order
    } else {
        raise(raise_all(order, ids.drop_last()), ids.last())
    }
}

/// A node as the interaction rules see it.
#[derive(Debug, Clone, Copy, PartialEq, Eq)]
pub struct NodeInfo {
    pub id: usize,
    pub draggable: bool,
}

/// A pin as the interaction rules see it.
#[derive(Debug, Clone, Copy, PartialEq, Eq)]
pub struct PinInfo {
    pub id: usize,
    pub kind: PinType,
    pub flags: usize,
    pub parent_node_idx: usize,
}

/// A link between two pins.
#[derive(Debug, Clone, Copy, PartialEq, Eq)]
pub struct LinkInfo {
    pub id: usize,
    pub start_pin_index: usize,
    pub end_pin_index: usize,
}

/// Do two links join the same two pins, in either direction?
pub open spec fn same_pins(a: LinkInfo, b: LinkInfo) -> bool {
    (a.start_pin_index == b.start_pin_index && a.end_pin_index == b.end_pin_index) || (
    a.start_pin_index == b.end_pin_index && a.end_pin_index == b.start_pin_index)
}

/// The first pin of `pins` with id `id`.
pub open spec fn pin_with_id(pins: Seq<PinInfo>, id: usize) -> Option<PinInfo>
    decreases pins.len(),
{
    if pins.len() == 0 {
        None
    } else if pins[0].id == id {
        Some(pins[0])
    } else {
        pin_with_id(pins.drop_first(), id)
    }
}

/// The first link of `links` with id `id`.
pub open spec fn link_with_id(links: Seq<LinkInfo>, id: usize) -> Option<LinkInfo>
    decreases links.len(),
{
    if links.len() == 0 {
        None
    } else if links[0].id == id {
        Some(links[0])
    } else {
        link_with_id(links.drop_first(), id)
    }
}

proof fn lemma_pin_with_id_found(pins: Seq<PinInfo>, k: int)
    requires
        0 <= k < pins.len(),
    ensures
        pin_with_id(pins, pins[k].id) is Some,
    decreases pins.len(),
{
    if pins[0].id != pins[k].id {
        assert(pins.drop_first()[k - 1] == pins[k]);
        lemma_pin_with_id_found(pins.drop_first(), k - 1);
    }
}

proof fn lemma_link_with_id_found(links: Seq<LinkInfo>, k: int)
    requires
        0 <= k < links.len(),
    ensures
        link_with_id(links, links[k].id) matches Some(l) && exists|j: int| 0 <= j < links.len() && links[j] == l,
    decreases links.len(),
{
    if links[0].id != links[k].id {
        let rest = links.drop_first();
        assert(rest[k - 1] == links[k]);
        lemma_link_with_id_found(rest, k - 1);
        let l = link_with_id(rest, links[k].id)->0;
        let j = choose|j: int| 0 <= j < rest.len() && rest[j] == l;
        assert(links[j + 1] == l);
    }
}

/// Both ends of every link are pins of the frame.
pub open spec fn links_join_pins(pins: Seq<PinInfo>, links: Seq<LinkInfo>) -> bool {
    forall|k: int| 0 <= k < links.len() ==> pin_with_id(pins, (#[trigger] links[k]).start_pin_index) is Some
        && pin_with_id(pins, links[k].end_pin_index) is Some
}

/// What drawing the elements of a frame keeps, from `e` (the state before
/// drawing, with the deletion changes `d` reported) to `s`.
pub open spec fn drawing_keeps<P>(e: &NodesContext<P>, s: &NodesContext<P>, d: Seq<GraphChange<P>>) -> bool {
    let g = s.frame_state.graph_changes@;
    &&& same_interaction(e, s)
    &&& s.frame_state.hovered_pin_index == e.frame_state.hovered_pin_index
    &&& s.frame_state.hovered_node_index == e.frame_state.hovered_node_index
    &&& s.frame_state.hovered_link_idx == e.frame_state.hovered_link_idx
    &&& s.frame_state.snap_link_idx is None
    &&& !s.frame_state.element_state_change.link_created
    &&& (s.frame_state.hovered_pin_flags & 1) != 0 ==> s.frame_state.hovered_pin_index is Some
    &&& s.state.click_interaction_type == ClickInteractionType::LinkCreation ==> s.pin(s.state.link_creation.start_pin_idx) is Some
    &&& d.len() <= g.len()
    &&& g.take(d.len() as int) == d
    &&& forall|k: int| d.len() <= k < g.len() ==> #[trigger] g[k] is LinkRemoved
}

/// The first link of `links` that touches pin `pin`.
pub open spec fn link_touching(links: Seq<LinkInfo>, pin: usize) -> Option<usize>
    decreases links.len(),
{
    if links.len() == 0 {
        None
    } else if links[0].start_pin_index == pin || links[0].end_pin_index == pin {
        Some(links[0].id)
    } else {
        link_touching(links.drop_first(), pin)
    }
}

/// The first link of `links` joining pins `start` and `end`, in either direction.
pub open spec fn duplicate_of(links: Seq<LinkInfo>, start: usize, end: usize) -> Option<usize>
    decreases links.len(),
{
    if links.len() == 0 {
        None
    } else if same_pins(links[0], LinkInfo { id: 0, start_pin_index: start, end_pin_index: end }) {
        Some(links[0].id)
    } else {
        duplicate_of(links.drop_first(), start, end)
    }
}

/// The nodes of `nodes` that are in `selected` and can be dragged, in
/// selection order.
pub open spec fn draggable_among(nodes: Seq<NodeInfo>, selected: Seq<usize>) -> Seq<usize> {
    selected.filter(|id: usize| node_with_id(nodes, id) matches Some(n) && n.draggable)
}

/// The node of `overlapping` that is highest in `depth_order`.
pub open spec fn topmost(overlapping: Seq<usize>, depth_order: Seq<usize>) -> Option<usize>
    decreases depth_order.len(),
{
    if depth_order.len() == 0 {
        None
    } else if overlapping.contains(depth_order.last()) {
        Some(depth_order.last())
    } else {
        topmost(overlapping, depth_order.drop_last())
    }
}

/// The node that [`topmost`] picks is one of the overlapping nodes, placed
/// in the depth order above every other overlapping node there: no later
/// position (nearer the top) holds an overlapping node. It picks none only
/// where no node of the depth order overlaps.
pub proof fn law_topmost_is_highest_overlapping(overlapping: Seq<usize>, depth_order: Seq<usize>)
    ensures
        topmost(overlapping, depth_order) is None <==> forall|i: int|
            0 <= i < depth_order.len() ==> !overlapping.contains(#[trigger] depth_order[i]),
        topmost(overlapping, depth_order) matches Some(n) ==> {
            &&& overlapping.contains(n)
            &&& exists|p: int| 0 <= p < depth_order.len() && depth_order[p] == n
                && forall|i: int| p < i < depth_order.len() ==> !overlapping.contains(#[trigger] depth_order[i])
        },
    decreases depth_order.len(),
{
    let d = depth_order;
    if d.len() > 0 {
        let last = d.len() - 1;
        law_topmost_is_highest_overlapping(overlapping, d.drop_last());
        if overlapping.contains(d.last()) {
            assert(d[last] == d.last());
        } else {
            assert forall|i: int| 0 <= i < d.drop_last().len() implies d.drop_last()[i] == d[i] by {}
            if let Some(n) = topmost(overlapping, d.drop_last()) {
                let p = choose|p: int| 0 <= p < d.drop_last().len() && d.drop_last()[p] == n
                    && forall|i: int| p < i < d.drop_last().len() ==> !overlapping.contains(#[trigger] d.drop_last()[i]);
                assert(d[p] == n);
                assert forall|i: int| p < i < d.len() implies !overlapping.contains(#[trigger] d[i]) by {
                    if i < last {
                        assert(d.drop_last()[i] == d[i]);
                    }
                }
            } else {
                assert forall|i: int| 0 <= i < d.len() implies !overlapping.contains(#[trigger] d[i]) by {
                    if i < last {
                        assert(d.drop_last()[i] == d[i]);
                    }
                }
            }
        }
    }
}

/// The first node of `nodes` with id `id`.
pub open spec fn node_with_id(nodes: Seq<NodeInfo>, id: usize) -> Option<NodeInfo>
    decreases nodes.len(),
{
    if nodes.len() == 0 {
        None
    } else if nodes[0].id == id {
        Some(nodes[0])
    } else {
        node_with_id(nodes.drop_first(), id)
    }
}

/// Should a link being created from `start` snap to `end`? Not within one
/// node, not between pins of one kind, and not onto a duplicate of another
/// link than the one being snapped.
pub open spec fn spec_should_snap(
    start: PinInfo,
    end: PinInfo,
    duplicate: Option<usize>,
    snap_link: Option<usize>,
) -> bool {
    &&& start.parent_node_idx != end.parent_node_idx
    &&& start.kind != end.kind
    &&& !(duplicate matches Some(x) && Some(x) != snap_link)
}

/// What a mouse click or drag is currently doing.
#[derive(Debug, Clone, Copy, PartialEq, Eq, Structural)]
pub enum ClickInteractionType {
    Node,
    Link,
    LinkCreation,
    Panning,
    BoxSelection,
    Idle,
}

/// How the link being created came about.
#[derive(Debug, Clone, Copy, PartialEq, Eq, Structural)]
pub enum LinkCreationType {
    Standard,
    FromDetach,
}

/// The link being dragged out of a pin.
#[derive(Debug, Clone, Copy, PartialEq, Eq)]
pub struct LinkCreationState {
    pub start_pin_idx: usize,
    pub end_pin_index: Option<usize>,
    pub link_creation_type: LinkCreationType,
}

/// The state kept from one frame to the next.
#[derive(Debug, Clone)]
pub struct PersistentState {
    pub interaction_state: InteractionState,
    pub selected_node_indices: Vec<usize>,
    pub selected_link_indices: Vec<usize>,
    /// Node ids from bottom to top.
    pub node_depth_order: Vec<usize>,
    pub click_interaction_type: ClickInteractionType,
    pub link_creation: LinkCreationState,
}

/// The state rebuilt every frame.
#[derive(Debug, Clone)]
pub struct FrameState<P> {
    pub node_indices_overlapping_with_mouse: Vec<usize>,
    pub occluded_pin_indices: Vec<usize>,
    pub hovered_node_index: Option<usize>,
    pub interactive_node_index: Option<usize>,
    pub hovered_link_idx: Option<usize>,
    pub hovered_pin_index: Option<usize>,
    pub hovered_pin_flags: usize,
    pub deleted_link_idx: Option<usize>,
    pub snap_link_idx: Option<usize>,
    pub element_state_change: ElementStateChange,
    pub active_pin: Option<usize>,
    pub graph_changes: Vec<GraphChange<P>>,
}

impl<P> FrameState<P> {
    pub open spec fn is_reset(&self) -> bool {
        &&& self.node_indices_overlapping_with_mouse@.len() == 0
        &&& self.occluded_pin_indices@.len() == 0
        &&& self.hovered_node_index is None
        &&& self.interactive_node_index is None
        &&& self.hovered_link_idx is None
        &&& self.hovered_pin_index is None
        &&& self.hovered_pin_flags == 0
        &&& self.deleted_link_idx is None
        &&& self.snap_link_idx is None
        &&& !self.element_state_change.link_started
        &&& !self.element_state_change.link_dropped
        &&& !self.element_state_change.link_created
        &&& self.active_pin is None
        &&& self.graph_changes@.len() == 0
    }

    pub fn new() -> (r: Self)
        ensures
            r.is_reset(),
    {
        FrameState {
            node_indices_overlapping_with_mouse: Vec::new(),
            occluded_pin_indices: Vec::new(),
            hovered_node_index: None,
            interactive_node_index: None,
            hovered_link_idx: None,
            hovered_pin_index: None,
            hovered_pin_flags: 0,
            deleted_link_idx: None,
            snap_link_idx: None,
            element_state_change: ElementStateChange::new(),
            active_pin: None,
            graph_changes: Vec::new(),
        }
    }

    /// Forgets everything of the previous frame.
    pub fn reset(&mut self)
        ensures
            final(self).is_reset(),
    {
        self.node_indices_overlapping_with_mouse.clear();
        self.occluded_pin_indices.clear();
        self.hovered_node_index = None;
        self.interactive_node_index = None;
        self.hovered_link_idx = None;
        self.hovered_pin_index = None;
        self.hovered_pin_flags = AttributeFlags::NoFlags.bits();
        self.deleted_link_idx = None;
        self.snap_link_idx = None;
        self.element_state_change.reset();
        self.active_pin = None;
        self.graph_changes.clear();
    }
}

/// What the caller has to draw or do after a click interaction step.
#[derive(Debug, Clone, PartialEq, Eq)]
pub enum ClickEffect {
    Nothing,
    /// Draw the selection box.
    DrawBox,
    /// Move these nodes by the pointer's motion and report their new places.
    MoveNodes(Vec<usize>),
    /// Draw the link being created, to this pin or else to the pointer.
    DrawLink(Option<usize>),
    /// Pan the canvas by the pointer's motion.
    Pan,
}

/// The node editor's interaction state together with the current graph.
pub struct NodesContext<P> {
    pub state: PersistentState,
    pub frame_state: FrameState<P>,
    pub io: IO,
    pub nodes: Vec<NodeInfo>,
    pub pins: Vec<PinInfo>,
    pub links: Vec<LinkInfo>,
}

impl<P> NodesContext<P> {
    /// The pin with id `id`.
    pub open spec fn pin(&self, id: usize) -> Option<PinInfo> {
        pin_with_id(self.pins@, id)
    }

    /// The link with id `id`.
    pub open spec fn link(&self, id: usize) -> Option<LinkInfo> {
        link_with_id(self.links@, id)
    }

    /// An editor with no graph, nothing selected and no interaction going on.
    pub fn new() -> (r: Self)
        ensures
            r.frame_state.is_reset(),
            r.state.selected_node_indices@.len() == 0,
            r.state.selected_link_indices@.len() == 0,
            r.state.node_depth_order@.len() == 0,
            r.state.click_interaction_type == ClickInteractionType::Idle,
            r.nodes@.len() == 0 && r.pins@.len() == 0 && r.links@.len() == 0,
    {
        NodesContext {
            state: PersistentState {
                interaction_state: InteractionState::new(),
                selected_node_indices: Vec::new(),
                selected_link_indices: Vec::new(),
                node_depth_order: Vec::new(),
                click_interaction_type: ClickInteractionType::Idle,
                link_creation: LinkCreationState {
                    start_pin_idx: 0,
                    end_pin_index: None,
                    link_creation_type: LinkCreationType::Standard,
                },
            },
            frame_state: FrameState::new(),
            io: IO::default(),
            nodes: Vec::new(),
            pins: Vec::new(),
            links: Vec::new(),
        }
    }

    /// The pin with id `id`.
    pub fn find_pin(&self, id: usize) -> (r: Option<PinInfo>)
        ensures
            r == self.pin(id),
    {
        let mut i: usize = 0;
        proof {
            assert(self.pins@.skip(0) =~= self.pins@);
        }
        while i < self.pins.len()
            invariant
                i <= self.pins@.len(),
                pin_with_id(self.pins@, id) == pin_with_id(self.pins@.skip(i as int), id),
            decreases self.pins@.len() - i,
        {
            proof {
                assert(self.pins@.skip(i as int).drop_first() =~= self.pins@.skip(i as int + 1));
            }
            if self.pins[i].id == id {
                return Some(self.pins[i]);
            }
            i = i + 1;
        }
        None
    }

    /// The link with id `id`.
    pub fn find_link(&self, id: usize) -> (r: Option<LinkInfo>)
        ensures
            r == self.link(id),
    {
        let mut i: usize = 0;
        proof {
            assert(self.links@.skip(0) =~= self.links@);
        }
        while i < self.links.len()
            invariant
                i <= self.links@.len(),
                link_with_id(self.links@, id) == link_with_id(self.links@.skip(i as int), id),
            decreases self.links@.len() - i,
        {
            proof {
                assert(self.links@.skip(i as int).drop_first() =~= self.links@.skip(i as int + 1));
            }
            if self.links[i].id == id {
                return Some(self.links[i]);
            }
            i = i + 1;
        }
        None
    }

    /// The first link that joins pins `start_pin_idx` and `end_pin_idx`, in
    /// either direction.
    pub fn find_duplicate_link(&self, start_pin_idx: usize, end_pin_idx: usize) -> (r: Option<
        usize,
    >)
        ensures
            r == duplicate_of(self.links@, start_pin_idx, end_pin_idx),
    {
        let test = LinkInfo { id: 0, start_pin_index: start_pin_idx, end_pin_index: end_pin_idx };
        let mut i: usize = 0;
        proof {
            assert(self.links@.skip(0) =~= self.links@);
        }
        while i < self.links.len()
            invariant
                i <= self.links@.len(),
                duplicate_of(self.links@, start_pin_idx, end_pin_idx) == duplicate_of(
                    self.links@.skip(i as int),
                    start_pin_idx,
                    end_pin_idx,
                ),
                test == (LinkInfo { id: 0, start_pin_index: start_pin_idx, end_pin_index: end_pin_idx }),
            decreases self.links@.len() - i,
        {
            proof {
                assert(self.links@.skip(i as int).drop_first() =~= self.links@.skip(i as int + 1));
            }
            if same_link_pins(&self.links[i], &test) {
                return Some(self.links[i].id);
            }
            i = i + 1;
        }
        None
    }

    /// The first link with pin `pin` at either end.
    pub fn find_link_touching(&self, pin: usize) -> (r: Option<usize>)
        ensures
            r == link_touching(self.links@, pin),
    {
        let mut i: usize = 0;
        proof {
            assert(self.links@.skip(0) =~= self.links@);
        }
        while i < self.links.len()
            invariant
                i <= self.links@.len(),
                link_touching(self.links@, pin) == link_touching(self.links@.skip(i as int), pin),
            decreases self.links@.len() - i,
        {
            proof {
                assert(self.links@.skip(i as int).drop_first() =~= self.links@.skip(i as int + 1));
            }
            if self.links[i].start_pin_index == pin || self.links[i].end_pin_index == pin {
                return Some(self.links[i].id);
            }
            i = i + 1;
        }
        None
    }

    /// Starts a frame with the graph's nodes, pins and links: what was
    /// noted of the previous frame is forgotten, the tables hold what is
    /// given, and the nodes are ordered for depth as
    /// [`Self::update_depth_order`] does: the new order holds each given
    /// node id exactly once.
    pub fn begin_frame(&mut self, nodes: Vec<NodeInfo>, pins: Vec<PinInfo>, links: Vec<LinkInfo>)
        ensures
            final(self).frame_state.is_reset(),
            final(self).nodes@ == nodes@,
            final(self).pins@ == pins@,
            final(self).links@ == links@,
            final(self).state.node_depth_order@ == depth_order(node_ids_of(nodes@), old(self).state.node_depth_order@),
            final(self).state.node_depth_order@.no_duplicates(),
            final(self).state.node_depth_order@.to_set() == node_ids_of(nodes@).to_set(),
            final(self).state.selected_node_indices == old(self).state.selected_node_indices,
            final(self).state.selected_link_indices == old(self).state.selected_link_indices,
            final(self).state.click_interaction_type == old(self).state.click_interaction_type,
    {
        self.frame_state.reset();
        let mut ids: Vec<usize> = Vec::new();
        let mut i: usize = 0;
        while i < nodes.len()
            invariant
                i <= nodes@.len(),
                ids@ == node_ids_of(nodes@.take(i as int)),
            decreases nodes@.len() - i,
        {
            ids.push(nodes[i].id);
            proof {
                assert(nodes@.take(i as int + 1) =~= nodes@.take(i as int).push(nodes@[i as int]));
                assert(node_ids_of(nodes@.take(i as int + 1)) =~= node_ids_of(nodes@.take(i as int)).push(nodes@[i as int].id));
            }
            i = i + 1;
        }
        proof {
            assert(nodes@.take(nodes@.len() as int) =~= nodes@);
        }
        self.update_depth_order(&ids);
        proof {
            law_depth_order_is_permutation(ids@, old(self).state.node_depth_order@);
        }
        self.nodes = nodes;
        self.pins = pins;
        self.links = links;
    }

    /// Orders the nodes of this frame bottom to top, each once: nodes new to
    /// the editor first, in the order given, then the known ones in their
    /// previous order.
    pub fn update_depth_order(&mut self, node_ids: &Vec<usize>)
        ensures
            final(self).state.node_depth_order@ == depth_order(node_ids@, old(self).state.node_depth_order@),
            final(self).state.selected_node_indices == old(self).state.selected_node_indices,
            final(self).state.selected_link_indices == old(self).state.selected_link_indices,
            final(self).state.click_interaction_type == old(self).state.click_interaction_type,
            final(self).frame_state == old(self).frame_state,
    {
        let ids = distinct_values(node_ids);
        let prev = distinct_values(&self.state.node_depth_order);
        let fresh = filter_by_membership(&ids, &self.state.node_depth_order, false);
        let known = filter_by_membership(&prev, node_ids, true);
        let mut order = fresh;
        let mut i: usize = 0;
        let ghost fresh_v = order@;
        while i < known.len()
            invariant
                i <= known@.len(),
                order@ == fresh_v + known@.take(i as int),
            decreases known@.len() - i,
        {
            order.push(known[i]);
            proof {
                assert(known@.take(i as int + 1) =~= known@.take(i as int).push(known@[i as int]));
            }
            i = i + 1;
        }
        proof {
            assert(known@.take(known@.len() as int) =~= known@);
        }
        self.state.node_depth_order = order;
    }

    /// When delete was pressed, reports every selected node and link as
    /// removed and clears the selection.
    pub fn apply_delete(&mut self)
        ensures
            old(self).state.interaction_state.delete_pressed ==> {
                &&& final(self).frame_state.graph_changes@ == old(self).frame_state.graph_changes@
                    + old(self).state.selected_node_indices@.map_values(
                    |n: usize| GraphChange::<P>::NodeRemoved(n),
                ) + old(self).state.selected_link_indices@.map_values(
                    |l: usize| GraphChange::<P>::LinkRemoved(l),
                )
                &&& final(self).state.selected_node_indices@.len() == 0
                &&& final(self).state.selected_link_indices@.len() == 0
            },
            !old(self).state.interaction_state.delete_pressed ==> {
                &&& final(self).frame_state.graph_changes@ == old(self).frame_state.graph_changes@
                &&& final(self).state.selected_node_indices == old(self).state.selected_node_indices
                &&& final(self).state.selected_link_indices == old(self).state.selected_link_indices
            },
            final(self).state.node_depth_order == old(self).state.node_depth_order,
            final(self).state.click_interaction_type == old(self).state.click_interaction_type,
            final(self).state.interaction_state == old(self).state.interaction_state,
            final(self).state.link_creation == old(self).state.link_creation,
            same_interaction(old(self), final(self)),
            same_frame_rest(old(self).frame_state, final(self).frame_state),
            final(self).frame_state.hovered_node_index == old(self).frame_state.hovered_node_index,
            final(self).frame_state.hovered_link_idx == old(self).frame_state.hovered_link_idx,
            final(self).frame_state.hovered_pin_index == old(self).frame_state.hovered_pin_index,
    {
        if self.state.interaction_state.delete_pressed {
            let ghost start = self.frame_state.graph_changes@;
            let mut i: usize = 0;
            while i < self.state.selected_node_indices.len()
                invariant
                    self.state == old(self).state,
                    self.nodes == old(self).nodes,
                    self.pins == old(self).pins,
                    self.links == old(self).links,
                    same_frame_rest(old(self).frame_state, self.frame_state),
                    self.frame_state.hovered_node_index == old(self).frame_state.hovered_node_index,
                    self.frame_state.hovered_link_idx == old(self).frame_state.hovered_link_idx,
                    self.frame_state.hovered_pin_index == old(self).frame_state.hovered_pin_index,
                    i <= self.state.selected_node_indices@.len(),
                    start == old(self).frame_state.graph_changes@,
                    self.frame_state.graph_changes@ == start
                        + self.state.selected_node_indices@.take(i as int).map_values(
                        |n: usize| GraphChange::<P>::NodeRemoved(n),
                    ),
                decreases self.state.selected_node_indices@.len() - i,
            {
                let n = self.state.selected_node_indices[i];
                self.frame_state.graph_changes.push(GraphChange::NodeRemoved(n));
                proof {
                    assert(self.state.selected_node_indices@.take(i as int + 1) =~= self.state.selected_node_indices@.take(i as int).push(n));
                    assert(start + self.state.selected_node_indices@.take(i as int + 1).map_values(
                        |n: usize| GraphChange::<P>::NodeRemoved(n),
                    ) =~= (start + self.state.selected_node_indices@.take(i as int).map_values(
                        |n: usize| GraphChange::<P>::NodeRemoved(n),
                    )).push(GraphChange::<P>::NodeRemoved(n)));
                }
                i = i + 1;
            }
            proof {
                assert(self.state.selected_node_indices@.take(i as int) =~= self.state.selected_node_indices@);
            }
            let ghost mid = self.frame_state.graph_changes@;
            let mut j: usize = 0;
            while j < self.state.selected_link_indices.len()
                invariant
                    self.state == old(self).state,
                    self.nodes == old(self).nodes,
                    self.pins == old(self).pins,
                    self.links == old(self).links,
                    same_frame_rest(old(self).frame_state, self.frame_state),
                    self.frame_state.hovered_node_index == old(self).frame_state.hovered_node_index,
                    self.frame_state.hovered_link_idx == old(self).frame_state.hovered_link_idx,
                    self.frame_state.hovered_pin_index == old(self).frame_state.hovered_pin_index,
                    mid == old(self).frame_state.graph_changes@ + old(self).state.selected_node_indices@.map_values(
                        |n: usize| GraphChange::<P>::NodeRemoved(n),
                    ),
                    j <= self.state.selected_link_indices@.len(),
                    self.frame_state.graph_changes@ == mid
                        + self.state.selected_link_indices@.take(j as int).map_values(
                        |l: usize| GraphChange::<P>::LinkRemoved(l),
                    ),
                decreases self.state.selected_link_indices@.len() - j,
            {
                let l = self.state.selected_link_indices[j];
                self.frame_state.graph_changes.push(GraphChange::LinkRemoved(l));
                proof {
                    assert(self.state.selected_link_indices@.take(j as int + 1) =~= self.state.selected_link_indices@.take(j as int).push(l));
                    assert(mid + self.state.selected_link_indices@.take(j as int + 1).map_values(
                        |l: usize| GraphChange::<P>::LinkRemoved(l),
                    ) =~= (mid + self.state.selected_link_indices@.take(j as int).map_values(
                        |l: usize| GraphChange::<P>::LinkRemoved(l),
                    )).push(GraphChange::<P>::LinkRemoved(l)));
                }
                j = j + 1;
            }
            proof {
                assert(self.state.selected_link_indices@.take(j as int) =~= self.state.selected_link_indices@);
            }
            self.state.selected_node_indices.clear();
            self.state.selected_link_indices.clear();
        }
    }
}

/// Do two links join the same two pins, in either direction?
pub fn same_link_pins(a: &LinkInfo, b: &LinkInfo) -> (r: bool)
    ensures
        r == same_pins(*a, *b),
{
    let (mut a_start, mut a_end) = (a.start_pin_index, a.end_pin_index);
    let (mut b_start, mut b_end) = (b.start_pin_index, b.end_pin_index);
    if a_start > a_end {
        let t = a_start;
        a_start = a_end;
        a_end = t;
    }
    if b_start > b_end {
        let t = b_start;
        b_start = b_end;
        b_end = t;
    }
    a_start == b_start && a_end == b_end
}

impl<P> NodesContext<P> {
    /// The node with id `id`.
    pub fn find_node(&self, id: usize) -> (r: Option<NodeInfo>)
        ensures
            r == node_with_id(self.nodes@, id),
    {
        let mut i: usize = 0;
        proof {
            assert(self.nodes@.skip(0) =~= self.nodes@);
        }
        while i < self.nodes.len()
            invariant
                i <= self.nodes@.len(),
                node_with_id(self.nodes@, id) == node_with_id(self.nodes@.skip(i as int), id),
            decreases self.nodes@.len() - i,
        {
            proof {
                assert(self.nodes@.skip(i as int).drop_first() =~= self.nodes@.skip(i as int + 1));
            }
            if self.nodes[i].id == id {
                return Some(self.nodes[i]);
            }
            i = i + 1;
        }
        None
    }

    /// The hovered node: the only node under the pointer, or the highest in
    /// the depth order of several. When none of several is in the depth
    /// order, the hovered node stays as it was.
    pub fn resolve_hovered_node(&mut self)
        ensures
            ({
                let ov = old(self).frame_state.node_indices_overlapping_with_mouse@;
                final(self).frame_state.hovered_node_index == if ov.len() == 0 {
                    None
                } else if ov.len() == 1 {
                    Some(ov[0])
                } else {
                    match topmost(ov, old(self).state.node_depth_order@) {
                        Some(n) => Some(n),
                        None => old(self).frame_state.hovered_node_index,
                    }
                }
            }),
            final(self).state == old(self).state,
            final(self).frame_state.hovered_link_idx == old(self).frame_state.hovered_link_idx,
            final(self).frame_state.hovered_pin_index == old(self).frame_state.hovered_pin_index,
            final(self).frame_state.graph_changes == old(self).frame_state.graph_changes,
            same_interaction(old(self), final(self)),
            same_frame_rest(old(self).frame_state, final(self).frame_state),
    {
        let n = self.frame_state.node_indices_overlapping_with_mouse.len();
        if n == 0 {
            self.frame_state.hovered_node_index = None;
        } else if n == 1 {
            self.frame_state.hovered_node_index = Some(
                self.frame_state.node_indices_overlapping_with_mouse[0],
            );
        } else {
            let ghost ov = self.frame_state.node_indices_overlapping_with_mouse@;
            let ghost depth = self.state.node_depth_order@;
            let mut d = self.state.node_depth_order.len();
            proof {
                assert(depth.take(depth.len() as int) =~= depth);
            }
            while d > 0
                invariant
                    self.state == old(self).state,
                    self.frame_state == old(self).frame_state,
                    self.nodes == old(self).nodes,
                    self.pins == old(self).pins,
                    self.links == old(self).links,
                    d <= depth.len(),
                    depth == self.state.node_depth_order@,
                    ov == self.frame_state.node_indices_overlapping_with_mouse@,
                    topmost(ov, depth) == topmost(ov, depth.take(d as int)),
                decreases d,
            {
                proof {
                    assert(depth.take(d as int).drop_last() =~= depth.take(d as int - 1));
                }
                let id = self.state.node_depth_order[d - 1];
                if vec_contains(&self.frame_state.node_indices_overlapping_with_mouse, id) {
                    self.frame_state.hovered_node_index = Some(id);
                    return;
                }
                d = d - 1;
            }
            proof {
                assert(depth.take(0) =~= Seq::<usize>::empty());
            }
        }
    }

    /// The hovered link: the first link with the hovered pin at one end, or
    /// else the link nearest to the pointer, as the caller measured it.
    pub fn resolve_hovered_link(&mut self, nearest: Option<usize>)
        ensures
            final(self).frame_state.hovered_link_idx == match old(self).frame_state.hovered_pin_index {
                Some(p) => match link_touching(old(self).links@, p) {
                    Some(l) => Some(l),
                    None => nearest,
                },
                None => nearest,
            },
            final(self).state == old(self).state,
            final(self).frame_state.hovered_node_index == old(self).frame_state.hovered_node_index,
            final(self).frame_state.hovered_pin_index == old(self).frame_state.hovered_pin_index,
            final(self).frame_state.graph_changes == old(self).frame_state.graph_changes,
            same_interaction(old(self), final(self)),
            same_frame_rest(old(self).frame_state, final(self).frame_state),
    {
        let touching = match self.frame_state.hovered_pin_index {
            Some(p) => self.find_link_touching(p),
            None => None,
        };
        self.frame_state.hovered_link_idx = match touching {
            Some(l) => Some(l),
            None => nearest,
        };
    }

    /// The hovered pin: the first of `candidates` (the pins within reach of
    /// the pointer, nearest first) that no node covers.
    pub fn resolve_hovered_pin(&mut self, candidates: &Vec<usize>)
        ensures
            final(self).frame_state.hovered_pin_index == first_not_in(
                candidates@,
                old(self).frame_state.occluded_pin_indices@,
            ),
            final(self).state == old(self).state,
            final(self).frame_state.hovered_node_index == old(self).frame_state.hovered_node_index,
            final(self).frame_state.hovered_link_idx == old(self).frame_state.hovered_link_idx,
            final(self).frame_state.graph_changes == old(self).frame_state.graph_changes,
            same_interaction(old(self), final(self)),
            same_frame_rest(old(self).frame_state, final(self).frame_state),
    {
        let ghost occ = self.frame_state.occluded_pin_indices@;
        let mut i: usize = 0;
        proof {
            assert(candidates@.skip(0) =~= candidates@);
        }
        while i < candidates.len()
            invariant
                self.state == old(self).state,
                self.frame_state == old(self).frame_state,
                self.nodes == old(self).nodes,
                self.pins == old(self).pins,
                self.links == old(self).links,
                i <= candidates@.len(),
                occ == self.frame_state.occluded_pin_indices@,
                first_not_in(candidates@, occ) == first_not_in(candidates@.skip(i as int), occ),
            decreases candidates@.len() - i,
        {
            proof {
                assert(candidates@.skip(i as int).drop_first() =~= candidates@.skip(i as int + 1));
            }
            if !vec_contains(&self.frame_state.occluded_pin_indices, candidates[i]) {
                self.frame_state.hovered_pin_index = Some(candidates[i]);
                return;
            }
            i = i + 1;
        }
        self.frame_state.hovered_pin_index = None;
    }

    /// A click on the empty canvas starts panning (alternative button) or a
    /// box selection (primary button).
    pub fn begin_canvas_interaction(&mut self)
        ensures
            ({
                let f = old(self).frame_state;
                let st = old(self).state;
                let blocked = st.click_interaction_type != ClickInteractionType::Idle
                    || f.hovered_node_index is Some || f.hovered_link_idx is Some
                    || f.hovered_pin_index is Some || !st.interaction_state.mouse_in_canvas;
                final(self).state.click_interaction_type == if blocked {
                    st.click_interaction_type
                } else if st.interaction_state.alt_mouse_clicked {
                    ClickInteractionType::Panning
                } else {
                    ClickInteractionType::BoxSelection
                }
            }),
            final(self).state.selected_node_indices == old(self).state.selected_node_indices,
            final(self).state.selected_link_indices == old(self).state.selected_link_indices,
            final(self).state.node_depth_order == old(self).state.node_depth_order,
            final(self).state.link_creation == old(self).state.link_creation,
            final(self).frame_state == old(self).frame_state,
            same_interaction(old(self), final(self)),
    {
        let any_hovered = self.frame_state.hovered_node_index.is_some()
            || self.frame_state.hovered_link_idx.is_some()
            || self.frame_state.hovered_pin_index.is_some();
        if self.state.click_interaction_type != ClickInteractionType::Idle || any_hovered
            || !self.state.interaction_state.mouse_in_canvas {
            return;
        }
        if self.state.interaction_state.alt_mouse_clicked {
            self.state.click_interaction_type = ClickInteractionType::Panning;
        } else {
            self.state.click_interaction_type = ClickInteractionType::BoxSelection;
        }
    }

    /// A click on a node selects it alone (unless it already is selected)
    /// and raises it to the top.
    pub fn begin_node_selection(&mut self, idx: usize)
        ensures
            old(self).state.click_interaction_type != ClickInteractionType::Idle ==> final(self).state == old(self).state,
            old(self).state.click_interaction_type == ClickInteractionType::Idle ==> {
                &&& final(self).state.click_interaction_type == ClickInteractionType::Node
                &&& if old(self).state.selected_node_indices@.contains(idx) {
                    &&& final(self).state.selected_node_indices == old(self).state.selected_node_indices
                    &&& final(self).state.selected_link_indices == old(self).state.selected_link_indices
                    &&& final(self).state.node_depth_order == old(self).state.node_depth_order
                } else {
                    &&& final(self).state.selected_node_indices@ == seq![idx]
                    &&& final(self).state.selected_link_indices@.len() == 0
                    &&& final(self).state.node_depth_order@ == raise(
                        old(self).state.node_depth_order@,
                        idx,
                    )
                }
                &&& final(self).state.link_creation == old(self).state.link_creation
                &&& final(self).state.interaction_state == old(self).state.interaction_state
            },
            final(self).frame_state == old(self).frame_state,
            same_interaction(old(self), final(self)),
    {
        if self.state.click_interaction_type != ClickInteractionType::Idle {
            return;
        }
        self.state.click_interaction_type = ClickInteractionType::Node;
        if !vec_contains(&self.state.selected_node_indices, idx) {
            self.state.selected_node_indices.clear();
            self.state.selected_link_indices.clear();
            self.state.selected_node_indices.push(idx);
            self.raise_node(idx);
            proof {
                assert(self.state.selected_node_indices@ =~= seq![idx]);
            }
        }
    }

    /// Moves node `id` to the top of the depth order.
    pub fn raise_node(&mut self, id: usize)
        ensures
            final(self).state.node_depth_order@ == raise(old(self).state.node_depth_order@, id),
            final(self).state.selected_node_indices == old(self).state.selected_node_indices,
            final(self).state.selected_link_indices == old(self).state.selected_link_indices,
            final(self).state.click_interaction_type == old(self).state.click_interaction_type,
            final(self).state.link_creation == old(self).state.link_creation,
            final(self).state.interaction_state == old(self).state.interaction_state,
            final(self).frame_state == old(self).frame_state,
            same_interaction(old(self), final(self)),
    {
        proof {
            self.state.node_depth_order@.index_of_first_ensures(id);
        }
        match index_of(&self.state.node_depth_order, id) {
            Some(d) => {
                let x = self.state.node_depth_order.remove(d);
                self.state.node_depth_order.push(x);
            },
            None => {},
        }
    }

    /// A click on a link selects it alone.
    pub fn begin_link_selection(&mut self, idx: usize)
        ensures
            final(self).state.click_interaction_type == ClickInteractionType::Link,
            final(self).state.selected_node_indices@.len() == 0,
            final(self).state.selected_link_indices@ == seq![idx],
            final(self).state.node_depth_order == old(self).state.node_depth_order,
            final(self).state.link_creation == old(self).state.link_creation,
            final(self).state.interaction_state == old(self).state.interaction_state,
            final(self).frame_state == old(self).frame_state,
            same_interaction(old(self), final(self)),
    {
        self.state.click_interaction_type = ClickInteractionType::Link;
        self.state.selected_node_indices.clear();
        self.state.selected_link_indices.clear();
        self.state.selected_link_indices.push(idx);
        proof {
            assert(self.state.selected_link_indices@ =~= seq![idx]);
        }
    }

    /// A click on a pin starts creating a link from it.
    pub fn begin_link_creation(&mut self, hovered_pin_idx: usize)
        ensures
            final(self).state.click_interaction_type == ClickInteractionType::LinkCreation,
            final(self).state.link_creation == (LinkCreationState {
                start_pin_idx: hovered_pin_idx,
                end_pin_index: None,
                link_creation_type: LinkCreationType::Standard,
            }),
            final(self).frame_state.element_state_change.link_started,
            final(self).frame_state.element_state_change.link_dropped == old(self).frame_state.element_state_change.link_dropped,
            final(self).frame_state.element_state_change.link_created == old(self).frame_state.element_state_change.link_created,
            final(self).state.selected_node_indices == old(self).state.selected_node_indices,
            final(self).state.selected_link_indices == old(self).state.selected_link_indices,
            final(self).state.node_depth_order == old(self).state.node_depth_order,
            final(self).state.interaction_state == old(self).state.interaction_state,
            final(self).frame_state.graph_changes == old(self).frame_state.graph_changes,
            final(self).frame_state.hovered_pin_index == old(self).frame_state.hovered_pin_index,
            final(self).frame_state.hovered_pin_flags == old(self).frame_state.hovered_pin_flags,
            final(self).frame_state.hovered_node_index == old(self).frame_state.hovered_node_index,
            final(self).frame_state.hovered_link_idx == old(self).frame_state.hovered_link_idx,
            final(self).frame_state.snap_link_idx == old(self).frame_state.snap_link_idx,
            same_interaction(old(self), final(self)),
    {
        self.state.click_interaction_type = ClickInteractionType::LinkCreation;
        self.state.link_creation.start_pin_idx = hovered_pin_idx;
        self.state.link_creation.end_pin_index = None;
        self.state.link_creation.link_creation_type = LinkCreationType::Standard;
        self.frame_state.element_state_change.link_started = true;
    }

    /// Detaches link `idx` from pin `detach_idx`: the link is reported as
    /// removed and a new link is being created from its other end.
    pub fn begin_link_detach(&mut self, idx: usize, detach_idx: usize)
        requires
            old(self).link(idx) is Some,
        ensures
            ({
                let l = old(self).link(idx)->0;
                &&& final(self).state.link_creation.start_pin_idx == if detach_idx
                    == l.start_pin_index {
                    l.end_pin_index
                } else {
                    l.start_pin_index
                }
                &&& final(self).state.link_creation.end_pin_index is None
            }),
            final(self).state.link_creation.link_creation_type == old(self).state.link_creation.link_creation_type,
            final(self).frame_state.deleted_link_idx == Some(idx),
            final(self).frame_state.graph_changes@ == old(self).frame_state.graph_changes@.push(
                GraphChange::LinkRemoved(idx),
            ),
            final(self).state.click_interaction_type == old(self).state.click_interaction_type,
            final(self).state.selected_node_indices == old(self).state.selected_node_indices,
            final(self).state.selected_link_indices == old(self).state.selected_link_indices,
            final(self).state.node_depth_order == old(self).state.node_depth_order,
            final(self).state.interaction_state == old(self).state.interaction_state,
            final(self).frame_state.element_state_change == old(self).frame_state.element_state_change,
            final(self).frame_state.hovered_pin_index == old(self).frame_state.hovered_pin_index,
            final(self).frame_state.hovered_node_index == old(self).frame_state.hovered_node_index,
            final(self).frame_state.hovered_link_idx == old(self).frame_state.hovered_link_idx,
            final(self).frame_state.hovered_pin_flags == old(self).frame_state.hovered_pin_flags,
            final(self).frame_state.snap_link_idx == old(self).frame_state.snap_link_idx,
            same_interaction(old(self), final(self)),
    {
        self.state.link_creation.end_pin_index = None;
        let link = self.find_link(idx).unwrap();
        self.state.link_creation.start_pin_idx = if detach_idx == link.start_pin_index {
            link.end_pin_index
        } else {
            link.start_pin_index
        };
        self.frame_state.deleted_link_idx = Some(idx);
        self.frame_state.graph_changes.push(GraphChange::LinkRemoved(idx));
    }

    /// A click on a link: while creating a link from a pin that allows it,
    /// detaches the link; with the detach modifier held, detaches the link
    /// from its end nearer the pointer and starts creating a link from the
    /// other end; otherwise selects the link.
    pub fn begin_link_interaction(&mut self, idx: usize, start_is_nearer: bool)
        requires
            old(self).link(idx) is Some,
            old(self).state.click_interaction_type == ClickInteractionType::LinkCreation && (old(self).frame_state.hovered_pin_flags & 1) != 0 ==> old(self).frame_state.hovered_pin_index is Some,
        ensures
            ({
                let st = old(self).state;
                let fr = old(self).frame_state;
                let l = old(self).link(idx)->0;
                if st.click_interaction_type == ClickInteractionType::LinkCreation {
                    if (fr.hovered_pin_flags & 1) != 0 {
                        let d = fr.hovered_pin_index->0;
                        &&& final(self).state.link_creation.start_pin_idx == if d
                            == l.start_pin_index {
                            l.end_pin_index
                        } else {
                            l.start_pin_index
                        }
                        &&& final(self).state.link_creation.end_pin_index is None
                        &&& final(self).state.link_creation.link_creation_type
                            == LinkCreationType::FromDetach
                        &&& final(self).frame_state.deleted_link_idx == Some(idx)
                        &&& final(self).frame_state.graph_changes@ == fr.graph_changes@.push(
                            GraphChange::LinkRemoved(idx),
                        )
                        &&& final(self).state.click_interaction_type == st.click_interaction_type
                    } else {
                        &&& final(self).state == st
                        &&& final(self).frame_state == fr
                    }
                } else if st.interaction_state.link_detatch_with_modifier_click {
                    let nearer = if start_is_nearer {
                        l.start_pin_index
                    } else {
                        l.end_pin_index
                    };
                    &&& final(self).state.click_interaction_type
                        == ClickInteractionType::LinkCreation
                    &&& final(self).state.link_creation.start_pin_idx == if nearer
                        == l.start_pin_index {
                        l.end_pin_index
                    } else {
                        l.start_pin_index
                    }
                    &&& final(self).state.link_creation.end_pin_index is None
                    &&& final(self).state.link_creation.link_creation_type
                        == st.link_creation.link_creation_type
                    &&& final(self).frame_state.deleted_link_idx == Some(idx)
                    &&& final(self).frame_state.graph_changes@ == fr.graph_changes@.push(
                        GraphChange::LinkRemoved(idx),
                    )
                } else {
                    &&& final(self).state.click_interaction_type == ClickInteractionType::Link
                    &&& final(self).state.selected_node_indices@.len() == 0
                    &&& final(self).state.selected_link_indices@ == seq![idx]
                    &&& final(self).frame_state == fr
                }
            }),
            final(self).state.node_depth_order == old(self).state.node_depth_order,
            same_interaction(old(self), final(self)),
            final(self).frame_state.hovered_pin_index == old(self).frame_state.hovered_pin_index,
            final(self).frame_state.hovered_node_index == old(self).frame_state.hovered_node_index,
            final(self).frame_state.hovered_link_idx == old(self).frame_state.hovered_link_idx,
            final(self).frame_state.hovered_pin_flags == old(self).frame_state.hovered_pin_flags,
            final(self).frame_state.snap_link_idx == old(self).frame_state.snap_link_idx,
            final(self).frame_state.element_state_change == old(self).frame_state.element_state_change,
    {
        if self.state.click_interaction_type == ClickInteractionType::LinkCreation {
            if (self.frame_state.hovered_pin_flags & AttributeFlags::EnableLinkDetachWithDragClick.bits())
                != 0 {
                let d = self.frame_state.hovered_pin_index.unwrap();
                self.begin_link_detach(idx, d);
                self.state.link_creation.link_creation_type = LinkCreationType::FromDetach;
            }
        } else if self.state.interaction_state.link_detatch_with_modifier_click {
            let link = self.find_link(idx).unwrap();
            let nearer = if start_is_nearer {
                link.start_pin_index
            } else {
                link.end_pin_index
            };
            self.state.click_interaction_type = ClickInteractionType::LinkCreation;
            self.begin_link_detach(idx, nearer);
        } else {
            self.begin_link_selection(idx);
        }
    }

    /// Should a link being created from `start_pin` snap to the hovered pin?
    pub fn should_link_snap_to_pin(
        &self,
        start_pin: &PinInfo,
        hovered_pin_idx: usize,
        duplicate_link: Option<usize>,
    ) -> (b: bool)
        requires
            self.pin(hovered_pin_idx) is Some,
        ensures
            b == spec_should_snap(
                *start_pin,
                self.pin(hovered_pin_idx)->0,
                duplicate_link,
                self.frame_state.snap_link_idx,
            ),
    {
        let end_pin = self.find_pin(hovered_pin_idx).unwrap();
        if start_pin.parent_node_idx == end_pin.parent_node_idx {
            return false;
        }
        if start_pin.kind == end_pin.kind {
            return false;
        }
        match duplicate_link {
            Some(x) => {
                match self.frame_state.snap_link_idx {
                    Some(y) => x == y,
                    None => false,
                }
            },
            None => true,
        }
    }

    /// The pin a link creation started from, in the frame it started.
    pub fn link_started(&self) -> (r: Option<usize>)
        ensures
            r == if self.frame_state.element_state_change.link_started {
                Some(self.state.link_creation.start_pin_idx)
            } else {
                None
            },
    {
        if self.frame_state.element_state_change.link_started {
            Some(self.state.link_creation.start_pin_idx)
        } else {
            None
        }
    }

    /// The pin a dropped link was dragged from, in the frame it was dropped;
    /// links dragged off a detached link count only when asked for.
    pub fn link_dropped(&self, including_detached_links: bool) -> (r: Option<usize>)
        ensures
            r == if self.frame_state.element_state_change.link_dropped && (including_detached_links
                || self.state.link_creation.link_creation_type != LinkCreationType::FromDetach) {
                Some(self.state.link_creation.start_pin_idx)
            } else {
                None
            },
    {
        if self.frame_state.element_state_change.link_dropped && (including_detached_links
            || self.state.link_creation.link_creation_type != LinkCreationType::FromDetach) {
            Some(self.state.link_creation.start_pin_idx)
        } else {
            None
        }
    }

    /// The link created in this frame, output pin first, and whether it was
    /// created by snapping.
    pub fn link_created(&self) -> (r: Option<(usize, usize, bool)>)
        requires
            self.frame_state.element_state_change.link_created ==> {
                &&& self.pin(self.state.link_creation.start_pin_idx) is Some
                &&& self.state.link_creation.end_pin_index is Some
                &&& self.pin(self.state.link_creation.end_pin_index->0) is Some
            },
        ensures
            r == if self.frame_state.element_state_change.link_created {
                let s = self.pin(self.state.link_creation.start_pin_idx)->0;
                let e = self.pin(self.state.link_creation.end_pin_index->0)->0;
                let snap = self.state.click_interaction_type == ClickInteractionType::LinkCreation;
                if s.kind == PinType::Output {
                    Some((s.id, e.id, snap))
                } else {
                    Some((e.id, s.id, snap))
                }
            } else {
                None
            },
    {
        if self.frame_state.element_state_change.link_created {
            let s = self.find_pin(self.state.link_creation.start_pin_idx).unwrap();
            let e = self.find_pin(self.state.link_creation.end_pin_index.unwrap()).unwrap();
            let snap = self.state.click_interaction_type == ClickInteractionType::LinkCreation;
            if s.kind == PinType::Output {
                Some((s.id, e.id, snap))
            } else {
                Some((e.id, s.id, snap))
            }
        } else {
            None
        }
    }

    /// The link created in this frame with the nodes of its pins: output pin,
    /// its node, input pin, its node, and whether it was created by snapping.
    pub fn link_created_node(&self) -> (r: Option<(usize, usize, usize, usize, bool)>)
        requires
            self.frame_state.element_state_change.link_created ==> {
                &&& self.pin(self.state.link_creation.start_pin_idx) is Some
                &&& self.state.link_creation.end_pin_index is Some
                &&& self.pin(self.state.link_creation.end_pin_index->0) is Some
            },
        ensures
            r == if self.frame_state.element_state_change.link_created {
                let s = self.pin(self.state.link_creation.start_pin_idx)->0;
                let e = self.pin(self.state.link_creation.end_pin_index->0)->0;
                let snap = self.state.click_interaction_type == ClickInteractionType::LinkCreation;
                if s.kind == PinType::Output {
                    Some((s.id, s.parent_node_idx, e.id, e.parent_node_idx, snap))
                } else {
                    Some((e.id, e.parent_node_idx, s.id, s.parent_node_idx, snap))
                }
            } else {
                None
            },
    {
        if self.frame_state.element_state_change.link_created {
            let s = self.find_pin(self.state.link_creation.start_pin_idx).unwrap();
            let e = self.find_pin(self.state.link_creation.end_pin_index.unwrap()).unwrap();
            let snap = self.state.click_interaction_type == ClickInteractionType::LinkCreation;
            if s.kind == PinType::Output {
                Some((s.id, s.parent_node_idx, e.id, e.parent_node_idx, snap))
            } else {
                Some((e.id, e.parent_node_idx, s.id, s.parent_node_idx, snap))
            }
        } else {
            None
        }
    }
}

/// The first of `candidates` that is not in `excluded`.
pub open spec fn first_not_in(candidates: Seq<usize>, excluded: Seq<usize>) -> Option<usize>
    decreases candidates.len(),
{
    if candidates.len() == 0 {
        None
    } else if !excluded.contains(candidates[0]) {
        Some(candidates[0])
    } else {
        first_not_in(candidates.drop_first(), excluded)
    }
}

proof fn lemma_first_not_in_from(candidates: Seq<usize>, excluded: Seq<usize>)
    ensures
        first_not_in(candidates, excluded) matches Some(h) ==> exists|k: int| 0 <= k < candidates.len() && candidates[k] == h,
    decreases candidates.len(),
{
    if candidates.len() > 0 && excluded.contains(candidates[0]) {
        let rest = candidates.drop_first();
        lemma_first_not_in_from(rest, excluded);
        if let Some(h) = first_not_in(rest, excluded) {
            let k = choose|k: int| 0 <= k < rest.len() && rest[k] == h;
            assert(candidates[k + 1] == h);
        }
    }
}

/// The selection a box selection makes: the nodes in the box that were
/// selected before, in their old order, then the newly boxed ones.
pub open spec fn boxed_selection(old_selection: Seq<usize>, nodes_in_box: Seq<usize>) -> Seq<usize> {
    old_selection.filter(|x: usize| nodes_in_box.contains(x) == true) + nodes_in_box.filter(
        |x: usize| old_selection.contains(x) == false,
    )
}

/// The parts of the persistent state that only selection changes touch.
/// The graph changes that pressing delete reports: the removal of the
/// selected nodes, then that of the selected links.
pub open spec fn deletion_changes<P>(nodes: Seq<usize>, links: Seq<usize>) -> Seq<GraphChange<P>> {
    nodes.map_values(|n: usize| GraphChange::<P>::NodeRemoved(n)) + links.map_values(
        |l: usize| GraphChange::<P>::LinkRemoved(l),
    )
}

/// The node hovered in a fresh frame where `ov` are the nodes under the
/// pointer and `order` the depth order: the only one, else the topmost.
pub open spec fn hovered_node_of(ov: Seq<usize>, order: Seq<usize>) -> Option<usize> {
    if ov.len() == 0 {
        None
    } else if ov.len() == 1 {
        Some(ov[0])
    } else {
        topmost(ov, order)
    }
}

/// The changes a frame's delete reports, from the selection of `o`.
pub open spec fn frame_deletions<P>(o: &NodesContext<P>, delete: bool) -> Seq<GraphChange<P>> {
    if delete {
        deletion_changes::<P>(o.state.selected_node_indices@, o.state.selected_link_indices@)
    } else {
        Seq::<GraphChange<P>>::empty()
    }
}

/// The hovered elements `f` of a frame that started from `o`: with the
/// pointer in the canvas, the hovered pin first (among `cands`), the
/// hovered node only where no pin is hovered, and the hovered link (the
/// first touching the pin, else `nearest`) only where no node is; with the
/// pointer outside, nothing.
pub open spec fn hover_resolved<P>(
    o: &NodesContext<P>,
    f: FrameState<P>,
    hovering: bool,
    cands: Seq<usize>,
    nearest: Option<usize>,
) -> bool {
    &&& hovering ==> {
        &&& f.hovered_pin_index == first_not_in(cands, o.frame_state.occluded_pin_indices@)
        &&& f.hovered_pin_index matches Some(p) ==> f.hovered_node_index is None && f.hovered_link_idx
            == match link_touching(o.links@, p) {
            Some(l) => Some(l),
            None => nearest,
        }
        &&& f.hovered_pin_index is None ==> f.hovered_node_index == hovered_node_of(
            o.frame_state.node_indices_overlapping_with_mouse@,
            o.state.node_depth_order@,
        )
        &&& f.hovered_pin_index is None && f.hovered_node_index is Some ==> f.hovered_link_idx is None
        &&& f.hovered_pin_index is None && f.hovered_node_index is None ==> f.hovered_link_idx == nearest
    }
    &&& !hovering ==> {
        &&& f.hovered_pin_index is None
        &&& f.hovered_node_index is None
        &&& f.hovered_link_idx is None
    }
}

/// Of the frame state, all but the hovered elements and the graph changes
/// are the same in `a` and `b`.
pub open spec fn same_frame_rest<P>(a: FrameState<P>, b: FrameState<P>) -> bool {
    &&& b.node_indices_overlapping_with_mouse == a.node_indices_overlapping_with_mouse
    &&& b.occluded_pin_indices == a.occluded_pin_indices
    &&& b.interactive_node_index == a.interactive_node_index
    &&& b.hovered_pin_flags == a.hovered_pin_flags
    &&& b.deleted_link_idx == a.deleted_link_idx
    &&& b.snap_link_idx == a.snap_link_idx
    &&& b.element_state_change == a.element_state_change
    &&& b.active_pin == a.active_pin
}

pub open spec fn same_interaction<P>(o: &NodesContext<P>, n: &NodesContext<P>) -> bool {
    &&& n.state.interaction_state == o.state.interaction_state
    &&& n.nodes == o.nodes
    &&& n.pins == o.pins
    &&& n.links == o.links
}

/// One step of a box selection.
pub open spec fn box_step_post<P>(
    o: &NodesContext<P>,
    n: &NodesContext<P>,
    nodes_in_box: Seq<usize>,
    links_in_box: Seq<usize>,
    effect: ClickEffect,
) -> bool {
    let sel = boxed_selection(o.state.selected_node_indices@, nodes_in_box);
    &&& n.state.selected_node_indices@ == sel
    &&& n.state.selected_link_indices@ == links_in_box
    &&& if o.state.interaction_state.left_mouse_released {
        &&& n.state.node_depth_order@ == raise_all(o.state.node_depth_order@, sel)
        &&& n.state.click_interaction_type == ClickInteractionType::Idle
    } else {
        &&& n.state.node_depth_order == o.state.node_depth_order
        &&& n.state.click_interaction_type == o.state.click_interaction_type
    }
    &&& n.state.link_creation == o.state.link_creation
    &&& n.frame_state == o.frame_state
    &&& same_interaction(o, n)
    &&& effect == ClickEffect::DrawBox
}

/// One step of dragging nodes.
pub open spec fn node_step_post<P>(o: &NodesContext<P>, n: &NodesContext<P>, effect: ClickEffect) -> bool {
    let is = o.state.interaction_state;
    &&& (if is.left_mouse_dragging {
        effect matches ClickEffect::MoveNodes(v) && v@ == draggable_among(
            o.nodes@,
            o.state.selected_node_indices@,
        )
    } else {
        effect == ClickEffect::Nothing
    })
    &&& n.state.click_interaction_type == if is.left_mouse_released {
        ClickInteractionType::Idle
    } else {
        o.state.click_interaction_type
    }
    &&& n.state.selected_node_indices == o.state.selected_node_indices
    &&& n.state.selected_link_indices == o.state.selected_link_indices
    &&& n.state.node_depth_order == o.state.node_depth_order
    &&& n.state.link_creation == o.state.link_creation
    &&& n.frame_state == o.frame_state
    &&& same_interaction(o, n)
}

/// One step of creating a link.
pub open spec fn link_creation_step_post<P>(
    o: &NodesContext<P>,
    n: &NodesContext<P>,
    effect: ClickEffect,
) -> bool {
    let fr = o.frame_state;
    let lc = o.state.link_creation;
    let hp = fr.hovered_pin_index;
    let released = o.state.interaction_state.left_mouse_released;
    let duplicate = match hp {
        Some(h) => duplicate_of(o.links@, lc.start_pin_idx, h),
        None => None,
    };
    let snap = match hp {
        Some(h) => spec_should_snap(
            o.pin(lc.start_pin_idx)->0,
            o.pin(h)->0,
            duplicate,
            fr.snap_link_idx,
        ),
        None => false,
    };
    let detach = (lc.end_pin_index matches Some(e) && hp != Some(e)) && fr.snap_link_idx is Some;
    let start1 = if detach {
        let l = o.link(fr.snap_link_idx->0)->0;
        if lc.end_pin_index->0 == l.start_pin_index {
            l.end_pin_index
        } else {
            l.start_pin_index
        }
    } else {
        lc.start_pin_idx
    };
    let end1 = if detach || !snap {
        None
    } else {
        lc.end_pin_index
    };
    let on_snap = hp matches Some(h) && (o.pin(h)->0.flags & 2) != 0;
    let create = snap && (released || on_snap);
    let wait = create && duplicate is None && !released && end1 == hp;
    let created = create && duplicate is None && !wait;
    &&& effect == ClickEffect::DrawLink(if snap { hp } else { None })
    &&& n.state.link_creation.start_pin_idx == start1
    &&& n.state.link_creation.end_pin_index == if created { hp } else { end1 }
    &&& n.state.link_creation.link_creation_type == lc.link_creation_type
    &&& n.frame_state.element_state_change.link_created == (
    fr.element_state_change.link_created || created)
    &&& n.frame_state.element_state_change.link_dropped == (fr.element_state_change.link_dropped
        || (released && !create))
    &&& n.frame_state.element_state_change.link_started == fr.element_state_change.link_started
    &&& n.state.click_interaction_type == if released {
        ClickInteractionType::Idle
    } else {
        ClickInteractionType::LinkCreation
    }
    &&& n.frame_state.deleted_link_idx == if detach {
        fr.snap_link_idx
    } else {
        fr.deleted_link_idx
    }
    &&& n.frame_state.graph_changes@ == if detach {
        fr.graph_changes@.push(GraphChange::LinkRemoved(fr.snap_link_idx->0))
    } else {
        fr.graph_changes@
    }
    &&& n.frame_state.hovered_pin_index == hp
    &&& n.frame_state.hovered_node_index == fr.hovered_node_index
    &&& n.frame_state.hovered_link_idx == fr.hovered_link_idx
    &&& n.state.selected_node_indices == o.state.selected_node_indices
    &&& n.state.selected_link_indices == o.state.selected_link_indices
    &&& n.state.node_depth_order == o.state.node_depth_order
    &&& same_interaction(o, n)
}

/// What [`NodesContext::link_creation_update`] needs: the pins it reads
/// and, when it detaches, the link it detaches.
pub open spec fn link_creation_ready<P>(o: &NodesContext<P>) -> bool {
    let fr = o.frame_state;
    let lc = o.state.link_creation;
    &&& (fr.hovered_pin_index matches Some(h) ==> o.pin(h) is Some && o.pin(
        lc.start_pin_idx,
    ) is Some)
    &&& ((lc.end_pin_index matches Some(e) && fr.hovered_pin_index != Some(e))
        && fr.snap_link_idx is Some ==> o.link(fr.snap_link_idx->0) is Some)
}

impl<P> NodesContext<P> {
    /// Selects what the box holds: `nodes_in_box` and `links_in_box` are the
    /// nodes and links the caller found inside the box.
    pub fn box_selector_update_selection(&mut self, nodes_in_box: &Vec<usize>, links_in_box: &Vec<usize>)
        ensures
            final(self).state.selected_node_indices@ == boxed_selection(
                old(self).state.selected_node_indices@,
                nodes_in_box@,
            ),
            final(self).state.selected_link_indices@ == links_in_box@,
            final(self).state.node_depth_order == old(self).state.node_depth_order,
            final(self).state.click_interaction_type == old(self).state.click_interaction_type,
            final(self).state.link_creation == old(self).state.link_creation,
            final(self).frame_state == old(self).frame_state,
            same_interaction(old(self), final(self)),
    {
        let kept = filter_by_membership(&self.state.selected_node_indices, nodes_in_box, true);
        let fresh = filter_by_membership(nodes_in_box, &self.state.selected_node_indices, false);
        let mut sel = kept;
        let ghost kept_v = sel@;
        let mut i: usize = 0;
        while i < fresh.len()
            invariant
                i <= fresh@.len(),
                sel@ == kept_v + fresh@.take(i as int),
            decreases fresh@.len() - i,
        {
            sel.push(fresh[i]);
            proof {
                assert(fresh@.take(i as int + 1) =~= fresh@.take(i as int).push(fresh@[i as int]));
            }
            i = i + 1;
        }
        proof {
            assert(fresh@.take(fresh@.len() as int) =~= fresh@);
        }
        self.state.selected_node_indices = sel;
        self.state.selected_link_indices = links_in_box.clone();
    }

    /// Moves each of `ids` in turn to the top of the depth order.
    pub fn raise_nodes(&mut self, ids: &Vec<usize>)
        ensures
            final(self).state.node_depth_order@ == raise_all(old(self).state.node_depth_order@, ids@),
            final(self).state.selected_node_indices == old(self).state.selected_node_indices,
            final(self).state.selected_link_indices == old(self).state.selected_link_indices,
            final(self).state.click_interaction_type == old(self).state.click_interaction_type,
            final(self).state.link_creation == old(self).state.link_creation,
            final(self).frame_state == old(self).frame_state,
            same_interaction(old(self), final(self)),
    {
        let mut i: usize = 0;
        while i < ids.len()
            invariant
                i <= ids@.len(),
                self.state.node_depth_order@ == raise_all(
                    old(self).state.node_depth_order@,
                    ids@.take(i as int),
                ),
                self.state.selected_node_indices == old(self).state.selected_node_indices,
                self.state.selected_link_indices == old(self).state.selected_link_indices,
                self.state.click_interaction_type == old(self).state.click_interaction_type,
                self.state.link_creation == old(self).state.link_creation,
                self.frame_state == old(self).frame_state,
                same_interaction(old(self), self),
            decreases ids@.len() - i,
        {
            proof {
                assert(ids@.take(i as int + 1).drop_last() =~= ids@.take(i as int));
            }
            self.raise_node(ids[i]);
            i = i + 1;
        }
        proof {
            assert(ids@.take(ids@.len() as int) =~= ids@);
        }
    }

    /// The selected nodes that can be dragged, in selection order.
    pub fn draggable_selected_nodes(&self) -> (r: Vec<usize>)
        ensures
            r@ == draggable_among(self.nodes@, self.state.selected_node_indices@),
    {
        let ghost pred = |id: usize| node_with_id(self.nodes@, id) matches Some(n) && n.draggable;
        let sel = &self.state.selected_node_indices;
        let mut r: Vec<usize> = Vec::new();
        let mut i: usize = 0;
        while i < sel.len()
            invariant
                i <= sel@.len(),
                r@ == sel@.take(i as int).filter(pred),
                pred == (|id: usize| node_with_id(self.nodes@, id) matches Some(n) && n.draggable),
            decreases sel@.len() - i,
        {
            proof {
                reveal(Seq::filter);
                assert(sel@.take(i as int + 1).drop_last() =~= sel@.take(i as int));
                assert(sel@.take(i as int + 1).last() == sel@[i as int]);
            }
            let keep = match self.find_node(sel[i]) {
                Some(n) => n.draggable,
                None => false,
            };
            if keep {
                r.push(sel[i]);
            }
            i = i + 1;
        }
        proof {
            assert(sel@.take(sel@.len() as int) =~= sel@);
        }
        r
    }

    /// One step of a box selection; on release the selected nodes are
    /// raised to the top and the box selection ends.
    pub fn box_selection_update(&mut self, nodes_in_box: &Vec<usize>, links_in_box: &Vec<usize>) -> (effect: ClickEffect)
        ensures
            box_step_post(old(self), final(self), nodes_in_box@, links_in_box@, effect),
    {
        self.box_selector_update_selection(nodes_in_box, links_in_box);
        if self.state.interaction_state.left_mouse_released {
            let sel = self.state.selected_node_indices.clone();
            self.raise_nodes(&sel);
            self.state.click_interaction_type = ClickInteractionType::Idle;
        }
        ClickEffect::DrawBox
    }

    /// One step of dragging the selected nodes.
    pub fn node_drag_update(&mut self) -> (effect: ClickEffect)
        ensures
            node_step_post(old(self), final(self), effect),
    {
        let effect = if self.state.interaction_state.left_mouse_dragging {
            ClickEffect::MoveNodes(self.draggable_selected_nodes())
        } else {
            ClickEffect::Nothing
        };
        if self.state.interaction_state.left_mouse_released {
            self.state.click_interaction_type = ClickInteractionType::Idle;
        }
        effect
    }

    /// One step of creating a link: snaps to the hovered pin when allowed,
    /// creates the link on release (or on snapping, for pins that ask for
    /// it), and drops it on a release anywhere else.
    pub fn link_creation_update(&mut self) -> (effect: ClickEffect)
        requires
            old(self).state.click_interaction_type == ClickInteractionType::LinkCreation,
            link_creation_ready(old(self)),
        ensures
            link_creation_step_post(old(self), final(self), effect),
    {
        let hp = self.frame_state.hovered_pin_index;
        let start = self.state.link_creation.start_pin_idx;
        let duplicate = match hp {
            Some(h) => self.find_duplicate_link(start, h),
            None => None,
        };
        let snap = match hp {
            Some(h) => {
                let start_pin = self.find_pin(start).unwrap();
                self.should_link_snap_to_pin(&start_pin, h, duplicate)
            },
            None => false,
        };
        let changed = match self.state.link_creation.end_pin_index {
            Some(e) => match hp {
                Some(h) => h != e,
                None => true,
            },
            None => false,
        };
        if changed && self.frame_state.snap_link_idx.is_some() {
            let l = self.frame_state.snap_link_idx.unwrap();
            let e = self.state.link_creation.end_pin_index.unwrap();
            self.begin_link_detach(l, e);
        }
        let on_snap = match hp {
            Some(h) => (self.find_pin(h).unwrap().flags & AttributeFlags::EnableLinkCreationOnSnap.bits())
                != 0,
            None => false,
        };
        if !snap {
            self.state.link_creation.end_pin_index = None;
        }
        let released = self.state.interaction_state.left_mouse_released;
        let create = snap && (released || on_snap);
        let effect = ClickEffect::DrawLink(if snap { hp } else { None });
        if create && duplicate.is_none() {
            if !released && self.state.link_creation.end_pin_index == hp {
                return effect;
            }
            self.frame_state.element_state_change.link_created = true;
            self.state.link_creation.end_pin_index = hp;
        }
        if released {
            self.state.click_interaction_type = ClickInteractionType::Idle;
            if !create {
                self.frame_state.element_state_change.link_dropped = true;
            }
        }
        effect
    }

    /// One step of panning: goes on while the alternative button is held.
    pub fn panning_update(&mut self) -> (effect: ClickEffect)
        ensures
            ({
                let is = old(self).state.interaction_state;
                if is.alt_mouse_dragging || is.alt_mouse_clicked {
                    effect == ClickEffect::Pan && final(self).state.click_interaction_type == old(self).state.click_interaction_type
                } else {
                    effect == ClickEffect::Nothing && final(self).state.click_interaction_type
                        == ClickInteractionType::Idle
                }
            }),
            final(self).state.selected_node_indices == old(self).state.selected_node_indices,
            final(self).state.selected_link_indices == old(self).state.selected_link_indices,
            final(self).state.node_depth_order == old(self).state.node_depth_order,
            final(self).state.link_creation == old(self).state.link_creation,
            final(self).frame_state == old(self).frame_state,
            same_interaction(old(self), final(self)),
    {
        if self.state.interaction_state.alt_mouse_dragging
            || self.state.interaction_state.alt_mouse_clicked {
            ClickEffect::Pan
        } else {
            self.state.click_interaction_type = ClickInteractionType::Idle;
            ClickEffect::Nothing
        }
    }

    /// Advances the current click interaction by one frame.
    pub fn click_interaction_update(&mut self, nodes_in_box: &Vec<usize>, links_in_box: &Vec<usize>) -> (effect: ClickEffect)
        requires
            old(self).state.click_interaction_type == ClickInteractionType::LinkCreation
                ==> link_creation_ready(old(self)),
        ensures
            match old(self).state.click_interaction_type {
                ClickInteractionType::BoxSelection => box_step_post(
                    old(self),
                    final(self),
                    nodes_in_box@,
                    links_in_box@,
                    effect,
                ),
                ClickInteractionType::Node => node_step_post(old(self), final(self), effect),
                ClickInteractionType::LinkCreation => link_creation_step_post(
                    old(self),
                    final(self),
                    effect,
                ),
                ClickInteractionType::Link => {
                    &&& effect == ClickEffect::Nothing
                    &&& final(self).state.click_interaction_type == if old(self).state.interaction_state.left_mouse_released {
                        ClickInteractionType::Idle
                    } else {
                        ClickInteractionType::Link
                    }
                    &&& final(self).state.selected_node_indices == old(self).state.selected_node_indices
                    &&& final(self).state.selected_link_indices == old(self).state.selected_link_indices
                    &&& final(self).state.node_depth_order == old(self).state.node_depth_order
                    &&& final(self).frame_state == old(self).frame_state
                    &&& same_interaction(old(self), final(self))
                },
                ClickInteractionType::Panning => {
                    let is = old(self).state.interaction_state;
                    &&& if is.alt_mouse_dragging || is.alt_mouse_clicked {
                        effect == ClickEffect::Pan && final(self).state.click_interaction_type
                            == ClickInteractionType::Panning
                    } else {
                        effect == ClickEffect::Nothing && final(self).state.click_interaction_type
                            == ClickInteractionType::Idle
                    }
                    &&& final(self).state.selected_node_indices == old(self).state.selected_node_indices
                    &&& final(self).state.selected_link_indices == old(self).state.selected_link_indices
                    &&& final(self).state.node_depth_order == old(self).state.node_depth_order
                    &&& final(self).frame_state == old(self).frame_state
                    &&& same_interaction(old(self), final(self))
                },
                ClickInteractionType::Idle => {
                    &&& effect == ClickEffect::Nothing
                    &&& final(self).state.click_interaction_type == ClickInteractionType::Idle
                    &&& final(self).state.selected_node_indices == old(self).state.selected_node_indices
                    &&& final(self).state.selected_link_indices == old(self).state.selected_link_indices
                    &&& final(self).state.node_depth_order == old(self).state.node_depth_order
                    &&& final(self).frame_state == old(self).frame_state
                    &&& same_interaction(old(self), final(self))
                },
            },
    {
        match self.state.click_interaction_type {
            ClickInteractionType::BoxSelection => self.box_selection_update(nodes_in_box, links_in_box),
            ClickInteractionType::Node => self.node_drag_update(),
            ClickInteractionType::Link => {
                if self.state.interaction_state.left_mouse_released {
                    self.state.click_interaction_type = ClickInteractionType::Idle;
                }
                ClickEffect::Nothing
            },
            ClickInteractionType::LinkCreation => self.link_creation_update(),
            ClickInteractionType::Panning => self.panning_update(),
            ClickInteractionType::Idle => ClickEffect::Nothing,
        }
    }

    /// Draws the elements of a frame: each node, in depth order, with its
    /// pins, then each link (`link_start_nearer` telling for each whether
    /// the pointer is nearer its start).
    fn draw_elements(&mut self, pin_candidates: &Vec<usize>, link_start_nearer: &Vec<bool>, Ghost(d): Ghost<Seq<GraphChange<P>>>)
        requires
            drawing_keeps(old(self), old(self), d),
            forall|k: int| 0 <= k < pin_candidates@.len() ==> old(self).pin(#[trigger] pin_candidates@[k]) is Some,
            links_join_pins(old(self).pins@, old(self).links@),
            link_start_nearer@.len() == old(self).links@.len(),
        ensures
            drawing_keeps(old(self), final(self), d),
    {
        // drawing: each node (in depth order) with its pins, then each link
        let order = self.state.node_depth_order.clone();
        let mut a: usize = 0;
        while a < order.len()
            invariant
                drawing_keeps(old(self), self, d),
                forall|k: int| 0 <= k < pin_candidates@.len() ==> self.pin(#[trigger] pin_candidates@[k]) is Some,
                a <= order@.len(),
            decreases order@.len() - a,
        {
            let nid = order[a];
            self.node_drawn(nid);
            let mut j: usize = 0;
            while j < self.pins.len()
                invariant
                    drawing_keeps(old(self), self, d),
                    forall|k: int| 0 <= k < pin_candidates@.len() ==> self.pin(#[trigger] pin_candidates@[k]) is Some,
                    j <= self.pins@.len(),
                decreases self.pins@.len() - j,
            {
                if self.pins[j].parent_node_idx == nid {
                    let pid = self.pins[j].id;
                    proof {
                        lemma_pin_with_id_found(self.pins@, j as int);
                    }
                    self.pin_drawn(pid);
                }
                j = j + 1;
            }
            a = a + 1;
        }
        let mut k: usize = 0;
        while k < self.links.len()
            invariant
                drawing_keeps(old(self), self, d),
                forall|q: int| 0 <= q < pin_candidates@.len() ==> self.pin(#[trigger] pin_candidates@[q]) is Some,
                links_join_pins(self.pins@, self.links@),
                link_start_nearer@.len() == self.links@.len(),
                k <= self.links@.len(),
            decreases self.links@.len() - k,
        {
            let id = self.links[k].id;
            proof {
                lemma_link_with_id_found(self.links@, k as int);
                let l = self.link(id)->0;
                let jj = choose|jj: int| 0 <= jj < self.links@.len() && self.links@[jj] == l;
                assert(self.pin(self.links@[jj].start_pin_index) is Some);
            }
            let ghost before = self.frame_state.graph_changes@;
            self.link_drawn(id, link_start_nearer[k]);
            proof {
                let g = self.frame_state.graph_changes@;
                if g != before {
                    assert(g == before.push(GraphChange::<P>::LinkRemoved(id)));
                }
                assert(g.take(d.len() as int) =~= before.take(d.len() as int));
            }
            k = k + 1;
        }
    }

    /// The first part of a frame: the pointer state follows `input`, a
    /// delete reports the removal of the selection, and the hovered pin,
    /// node and link are resolved.
    fn pointer_and_hover(&mut self, input: &FrameInput, pin_candidates: &Vec<usize>, nearest_link: Option<usize>)
        requires
            old(self).frame_state.hovered_pin_index is None,
            old(self).frame_state.hovered_node_index is None,
            old(self).frame_state.hovered_link_idx is None,
            old(self).frame_state.graph_changes@.len() == 0,
            forall|k: int| 0 <= k < pin_candidates@.len() ==> old(self).pin(#[trigger] pin_candidates@[k]) is Some,
        ensures
            final(self).state.interaction_state.mouse_in_canvas == input.hovering,
            final(self).state.interaction_state.delete_pressed == input.delete_pressed,
            final(self).nodes == old(self).nodes,
            final(self).pins == old(self).pins,
            final(self).links == old(self).links,
            final(self).frame_state.graph_changes@ == frame_deletions(old(self), input.delete_pressed),
            hover_resolved(old(self), final(self).frame_state, input.hovering, pin_candidates@, nearest_link),
            final(self).frame_state.hovered_pin_index matches Some(h) ==> final(self).pin(h) is Some,
            same_frame_rest(old(self).frame_state, final(self).frame_state),
            final(self).state.click_interaction_type == old(self).state.click_interaction_type,
            final(self).state.link_creation == old(self).state.link_creation,
    {
        let ghost changes0 = self.frame_state.graph_changes@;
        self.state.interaction_state = self.state.interaction_state.update(input, &self.io);
        self.apply_delete();
        proof {
            assert(changes0 =~= Seq::<GraphChange<P>>::empty());
            assert(self.frame_state.graph_changes@ =~= frame_deletions(old(self), input.delete_pressed));
        }
        if self.state.interaction_state.mouse_in_canvas {
            self.resolve_hovered_pin(pin_candidates);
            if self.frame_state.hovered_pin_index.is_none() {
                self.resolve_hovered_node();
            }
            if self.frame_state.hovered_node_index.is_none() {
                self.resolve_hovered_link(nearest_link);
            }
        }
        proof {
            lemma_first_not_in_from(pin_candidates@, old(self).frame_state.occluded_pin_indices@);
            if let Some(h) = self.frame_state.hovered_pin_index {
                let k = choose|k: int| 0 <= k < pin_candidates@.len() && pin_candidates@[k] == h;
                assert(old(self).pin(pin_candidates@[k]) is Some);
            }
        }
    }

    /// The last part of a frame: a click on the canvas begins an
    /// interaction, the current interaction advances one step, and a link
    /// created in the frame is reported.
    fn click_and_report(&mut self, nodes_in_box: &Vec<usize>, links_in_box: &Vec<usize>) -> (effect: ClickEffect)
        requires
            old(self).frame_state.snap_link_idx is None,
            !old(self).frame_state.element_state_change.link_created,
            old(self).frame_state.hovered_pin_index matches Some(h) ==> old(self).pin(h) is Some,
            old(self).state.click_interaction_type == ClickInteractionType::LinkCreation
                ==> old(self).pin(old(self).state.link_creation.start_pin_idx) is Some,
        ensures
            final(self).nodes == old(self).nodes,
            final(self).pins == old(self).pins,
            final(self).links == old(self).links,
            final(self).state.interaction_state == old(self).state.interaction_state,
            final(self).frame_state.hovered_pin_index == old(self).frame_state.hovered_pin_index,
            final(self).frame_state.hovered_node_index == old(self).frame_state.hovered_node_index,
            final(self).frame_state.hovered_link_idx == old(self).frame_state.hovered_link_idx,
            final(self).frame_state.graph_changes@ == match final(self).spec_link_created() {
                Some((s, e, _)) => old(self).frame_state.graph_changes@.push(GraphChange::LinkCreated(s, e)),
                None => old(self).frame_state.graph_changes@,
            },
    {
        if self.state.interaction_state.left_mouse_clicked || self.state.interaction_state.alt_mouse_clicked {
            self.begin_canvas_interaction();
        }
        let effect = self.click_interaction_update(nodes_in_box, links_in_box);
        self.report_created_link();
        effect
    }

    /// One frame of the node editor, once its tables are set (see
    /// [`Self::begin_frame`]): the pointer state follows `input`; a delete
    /// reports the removal of the selection first; with the pointer in the
    /// canvas the hovered pin is resolved first (among `pin_candidates`),
    /// the hovered node only where no pin is hovered, and the hovered link
    /// (the first touching the hovered pin, else `nearest_link`) only where
    /// no node is; then the nodes, in depth order, with their pins, and the
    /// links are drawn, which may start a selection or a link (a detached
    /// link is reported removed); a click on the canvas begins an
    /// interaction; the current interaction advances one step (see
    /// [`Self::click_interaction_update`], whose effect is returned); and a
    /// link created in the frame is reported last.
    pub fn frame_interaction(
        &mut self,
        input: &FrameInput,
        pin_candidates: &Vec<usize>,
        nearest_link: Option<usize>,
        link_start_nearer: &Vec<bool>,
        nodes_in_box: &Vec<usize>,
        links_in_box: &Vec<usize>,
    ) -> (effect: ClickEffect)
        requires
            old(self).frame_state.hovered_pin_index is None,
            old(self).frame_state.hovered_node_index is None,
            old(self).frame_state.hovered_link_idx is None,
            old(self).frame_state.hovered_pin_flags == 0,
            old(self).frame_state.snap_link_idx is None,
            !old(self).frame_state.element_state_change.link_created,
            old(self).frame_state.graph_changes@.len() == 0,
            links_join_pins(old(self).pins@, old(self).links@),
            link_start_nearer@.len() == old(self).links@.len(),
            forall|k: int| 0 <= k < pin_candidates@.len() ==> old(self).pin(#[trigger] pin_candidates@[k]) is Some,
            old(self).state.click_interaction_type == ClickInteractionType::LinkCreation
                ==> old(self).pin(old(self).state.link_creation.start_pin_idx) is Some,
        ensures
            final(self).state.interaction_state.mouse_in_canvas == input.hovering,
            final(self).state.interaction_state.delete_pressed == input.delete_pressed,
            final(self).nodes == old(self).nodes,
            final(self).pins == old(self).pins,
            final(self).links == old(self).links,
            ({
                let g = final(self).frame_state.graph_changes@;
                let d = frame_deletions(old(self), input.delete_pressed);
                let c: int = if final(self).spec_link_created() is Some { 1 } else { 0 };
                &&& d.len() + c <= g.len()
                &&& g.take(d.len() as int) == d
                &&& forall|k: int| d.len() <= k < g.len() - c ==> #[trigger] g[k] is LinkRemoved
                &&& final(self).spec_link_created() matches Some((s, e, _)) ==> g.last() == GraphChange::<P>::LinkCreated(s, e)
            }),
            hover_resolved(old(self), final(self).frame_state, input.hovering, pin_candidates@, nearest_link),
    {
        self.pointer_and_hover(input, pin_candidates, nearest_link);
        let ghost d = self.frame_state.graph_changes@;
        let ghost e = *self;
        let ghost hf = self.frame_state;
        proof {
            assert((0usize & 1usize) == 0usize) by (bit_vector);
            assert(d.take(d.len() as int) =~= d);
            assert(drawing_keeps(&e, &e, d));
        }
        self.draw_elements(pin_candidates, link_start_nearer, Ghost(d));
        let ghost drawn = self.frame_state.graph_changes@;
        let effect = self.click_and_report(nodes_in_box, links_in_box);
        proof {
            let g = self.frame_state.graph_changes@;
            assert(hover_resolved(old(self), hf, input.hovering, pin_candidates@, nearest_link));
            if self.spec_link_created() is Some {
                assert(g.take(d.len() as int) =~= drawn.take(d.len() as int));
                assert forall|q: int| d.len() <= q < g.len() - 1 implies #[trigger] g[q] is LinkRemoved by {
                    assert(g[q] == drawn[q]);
                }
            }
        }
        effect
    }

    /// Reports the link created in this frame, if any, as a graph change.
    pub fn report_created_link(&mut self)
        requires
            old(self).frame_state.element_state_change.link_created ==> {
                &&& old(self).pin(old(self).state.link_creation.start_pin_idx) is Some
                &&& old(self).state.link_creation.end_pin_index is Some
                &&& old(self).pin(old(self).state.link_creation.end_pin_index->0) is Some
            },
        ensures
            final(self).frame_state.graph_changes@ == match old(self).spec_link_created() {
                Some((s, e, _)) => old(self).frame_state.graph_changes@.push(GraphChange::LinkCreated(s, e)),
                None => old(self).frame_state.graph_changes@,
            },
            final(self).state == old(self).state,
            same_interaction(old(self), final(self)),
            same_frame_rest(old(self).frame_state, final(self).frame_state),
            final(self).frame_state.hovered_node_index == old(self).frame_state.hovered_node_index,
            final(self).frame_state.hovered_link_idx == old(self).frame_state.hovered_link_idx,
            final(self).frame_state.hovered_pin_index == old(self).frame_state.hovered_pin_index,
    {
        match self.link_created() {
            Some((s, e, _)) => self.frame_state.graph_changes.push(GraphChange::LinkCreated(s, e)),
            None => {},
        }
    }

    /// What [`NodesContext::link_created`] returns.
    pub open spec fn spec_link_created(&self) -> Option<(usize, usize, bool)> {
        if self.frame_state.element_state_change.link_created {
            let s = self.pin(self.state.link_creation.start_pin_idx)->0;
            let e = self.pin(self.state.link_creation.end_pin_index->0)->0;
            let snap = self.state.click_interaction_type == ClickInteractionType::LinkCreation;
            if s.kind == PinType::Output {
                Some((s.id, e.id, snap))
            } else {
                Some((e.id, s.id, snap))
            }
        } else {
            None
        }
    }
}

impl<P> NodesContext<P> {
    /// Is node `node_idx` shown as hovered? Not during a box selection.
    pub open spec fn spec_node_hovered(&self, node_idx: usize) -> bool {
        self.frame_state.hovered_node_index == Some(node_idx) && self.state.click_interaction_type
            != ClickInteractionType::BoxSelection
    }

    /// A node is being drawn: a click on it, when it is hovered and the
    /// pointer is not busy with one of its pins, starts a node selection.
    /// Returns whether the node is shown as hovered.
    pub fn node_drawn(&mut self, node_idx: usize) -> (hovered: bool)
        ensures
            hovered == old(self).spec_node_hovered(node_idx),
            hovered && old(self).state.interaction_state.left_mouse_clicked
                && old(self).frame_state.interactive_node_index != Some(node_idx)
                && old(self).state.click_interaction_type == ClickInteractionType::Idle ==> {
                &&& final(self).state.click_interaction_type == ClickInteractionType::Node
                &&& final(self).state.selected_node_indices@.contains(node_idx)
            },
            !(hovered && old(self).state.interaction_state.left_mouse_clicked
                && old(self).frame_state.interactive_node_index != Some(node_idx)
                && old(self).state.click_interaction_type == ClickInteractionType::Idle) ==> final(self).state == old(self).state,
            final(self).frame_state == old(self).frame_state,
            same_interaction(old(self), final(self)),
    {
        let hovered = self.frame_state.hovered_node_index == Some(node_idx)
            && self.state.click_interaction_type != ClickInteractionType::BoxSelection;
        if hovered && self.state.interaction_state.left_mouse_clicked
            && self.frame_state.interactive_node_index != Some(node_idx) {
            self.begin_node_selection(node_idx);
            proof {
                if old(self).state.click_interaction_type == ClickInteractionType::Idle
                    && !old(self).state.selected_node_indices@.contains(node_idx) {
                    assert(self.state.selected_node_indices@[0] == node_idx);
                }
            }
        }
        hovered
    }

    /// A pin is being drawn: when hovered, its flags become the hovered
    /// pin's flags and a click on it starts creating a link. Returns whether
    /// the pin is shown as hovered.
    pub fn pin_drawn(&mut self, pin_idx: usize) -> (hovered: bool)
        requires
            old(self).pin(pin_idx) is Some,
        ensures
            hovered == (old(self).frame_state.hovered_pin_index == Some(pin_idx)
                && old(self).state.click_interaction_type != ClickInteractionType::BoxSelection),
            hovered ==> final(self).frame_state.hovered_pin_flags == old(self).pin(pin_idx)->0.flags,
            !hovered ==> final(self).frame_state.hovered_pin_flags == old(self).frame_state.hovered_pin_flags,
            hovered && old(self).state.interaction_state.left_mouse_clicked ==> {
                &&& final(self).state.click_interaction_type == ClickInteractionType::LinkCreation
                &&& final(self).state.link_creation.start_pin_idx == pin_idx
                &&& final(self).state.link_creation.end_pin_index is None
                &&& final(self).frame_state.element_state_change.link_started
            },
            !(hovered && old(self).state.interaction_state.left_mouse_clicked) ==> {
                &&& final(self).state == old(self).state
                &&& final(self).frame_state.element_state_change == old(self).frame_state.element_state_change
            },
            final(self).frame_state.graph_changes == old(self).frame_state.graph_changes,
            final(self).frame_state.hovered_pin_index == old(self).frame_state.hovered_pin_index,
            final(self).frame_state.hovered_node_index == old(self).frame_state.hovered_node_index,
            final(self).frame_state.hovered_link_idx == old(self).frame_state.hovered_link_idx,
            final(self).frame_state.snap_link_idx == old(self).frame_state.snap_link_idx,
            final(self).frame_state.element_state_change.link_created == old(self).frame_state.element_state_change.link_created,
            same_interaction(old(self), final(self)),
    {
        let hovered = self.frame_state.hovered_pin_index == Some(pin_idx)
            && self.state.click_interaction_type != ClickInteractionType::BoxSelection;
        if hovered {
            self.frame_state.hovered_pin_flags = self.find_pin(pin_idx).unwrap().flags;
            if self.state.interaction_state.left_mouse_clicked {
                self.begin_link_creation(pin_idx);
            }
        }
        hovered
    }

    /// A link is being drawn: a click on it, when hovered, starts a link
    /// interaction. Returns whether the link is shown as hovered.
    pub fn link_drawn(&mut self, link_idx: usize, start_is_nearer: bool) -> (hovered: bool)
        requires
            old(self).link(link_idx) is Some,
            old(self).state.click_interaction_type == ClickInteractionType::LinkCreation && (old(self).frame_state.hovered_pin_flags & 1) != 0 ==> old(self).frame_state.hovered_pin_index is Some,
        ensures
            hovered == (old(self).frame_state.hovered_link_idx == Some(link_idx)
                && old(self).state.click_interaction_type != ClickInteractionType::BoxSelection),
            !(hovered && old(self).state.interaction_state.left_mouse_clicked) ==> {
                &&& final(self).state == old(self).state
                &&& final(self).frame_state == old(self).frame_state
            },
            hovered && old(self).state.interaction_state.left_mouse_clicked
                && old(self).state.click_interaction_type != ClickInteractionType::LinkCreation
                && !old(self).state.interaction_state.link_detatch_with_modifier_click ==> {
                &&& final(self).state.click_interaction_type == ClickInteractionType::Link
                &&& final(self).state.selected_link_indices@ == seq![link_idx]
            },
            same_interaction(old(self), final(self)),
            final(self).frame_state.hovered_pin_index == old(self).frame_state.hovered_pin_index,
            final(self).frame_state.hovered_node_index == old(self).frame_state.hovered_node_index,
            final(self).frame_state.hovered_link_idx == old(self).frame_state.hovered_link_idx,
            final(self).frame_state.hovered_pin_flags == old(self).frame_state.hovered_pin_flags,
            final(self).frame_state.snap_link_idx == old(self).frame_state.snap_link_idx,
            final(self).frame_state.element_state_change == old(self).frame_state.element_state_change,
            final(self).frame_state.graph_changes@ == old(self).frame_state.graph_changes@
                || final(self).frame_state.graph_changes@ == old(self).frame_state.graph_changes@.push(GraphChange::LinkRemoved(link_idx)),
            final(self).state.click_interaction_type == ClickInteractionType::LinkCreation ==> {
                ||| old(self).state.click_interaction_type == ClickInteractionType::LinkCreation
                    && final(self).state.link_creation.start_pin_idx == old(self).state.link_creation.start_pin_idx
                ||| final(self).state.link_creation.start_pin_idx == old(self).link(link_idx)->0.start_pin_index
                ||| final(self).state.link_creation.start_pin_idx == old(self).link(link_idx)->0.end_pin_index
            },
    {
        let hovered = self.frame_state.hovered_link_idx == Some(link_idx)
            && self.state.click_interaction_type != ClickInteractionType::BoxSelection;
        if hovered && self.state.interaction_state.left_mouse_clicked {
            self.begin_link_interaction(link_idx, start_is_nearer);
        }
        hovered
    }
}


// ------------------------------------------------------------- queries

impl<P> NodesContext<P> {
    /// Sets whether the node `node_id` can be dragged.
    pub fn set_node_draggable(&mut self, node_id: usize, draggable: bool)
        requires
            node_with_id(old(self).nodes@, node_id) is Some,
        ensures
            final(self).nodes@.len() == old(self).nodes@.len(),
            forall|k: int| 0 <= k < old(self).nodes@.len() ==> (#[trigger] final(self).nodes@[k]) == if old(self).nodes@[k].id == node_id {
                NodeInfo { id: node_id, draggable }
            } else {
                old(self).nodes@[k]
            },
            final(self).state == old(self).state,
            final(self).frame_state == old(self).frame_state,
            final(self).pins@ == old(self).pins@,
            final(self).links@ == old(self).links@,
    {
        let mut i: usize = 0;
        while i < self.nodes.len()
            invariant
                i <= self.nodes@.len(),
                self.nodes@.len() == old(self).nodes@.len(),
                forall|k: int| 0 <= k < i ==> (#[trigger] self.nodes@[k]) == if old(self).nodes@[k].id == node_id {
                    NodeInfo { id: node_id, draggable }
                } else {
                    old(self).nodes@[k]
                },
                forall|k: int| i <= k < self.nodes@.len() ==> #[trigger] self.nodes@[k] == old(self).nodes@[k],
                self.state == old(self).state,
                self.frame_state == old(self).frame_state,
                self.pins@ == old(self).pins@,
                self.links@ == old(self).links@,
            decreases self.nodes@.len() - i,
        {
            if self.nodes[i].id == node_id {
                self.nodes.set(i, NodeInfo { id: node_id, draggable });
            }
            i = i + 1;
        }
    }

    /// The node under the pointer, if any.
    pub fn node_hovered(&self) -> (r: Option<usize>)
        ensures
            r == self.frame_state.hovered_node_index,
    {
        self.frame_state.hovered_node_index
    }

    /// The link under the pointer, if any.
    pub fn link_hovered(&self) -> (r: Option<usize>)
        ensures
            r == self.frame_state.hovered_link_idx,
    {
        self.frame_state.hovered_link_idx
    }

    /// The pin under the pointer, if any.
    pub fn pin_hovered(&self) -> (r: Option<usize>)
        ensures
            r == self.frame_state.hovered_pin_index,
    {
        self.frame_state.hovered_pin_index
    }

    /// The length of the selection list that this count reads, which is the
    /// list of selected links.
    pub fn num_selected_nodes(&self) -> (n: usize)
        ensures
            n == self.state.selected_link_indices@.len(),
    {
        self.state.selected_link_indices.len()
    }

    /// The selected nodes, in the order they were selected.
    pub fn get_selected_nodes(&self) -> (r: Vec<usize>)
        ensures
            r@ == self.state.selected_node_indices@,
    {
        self.state.selected_node_indices.clone()
    }

    /// The selected links, in the order they were selected.
    pub fn get_selected_links(&self) -> (r: Vec<usize>)
        ensures
            r@ == self.state.selected_link_indices@,
    {
        self.state.selected_link_indices.clone()
    }

    /// Deselects every node.
    pub fn clear_node_selection(&mut self)
        ensures
            final(self).state.selected_node_indices@.len() == 0,
            final(self).state.selected_link_indices@ == old(self).state.selected_link_indices@,
            final(self).state.node_depth_order@ == old(self).state.node_depth_order@,
            final(self).state.click_interaction_type == old(self).state.click_interaction_type,
            final(self).state.link_creation == old(self).state.link_creation,
            final(self).state.interaction_state == old(self).state.interaction_state,
            final(self).frame_state == old(self).frame_state,
            final(self).nodes@ == old(self).nodes@,
    {
        self.state.selected_node_indices.clear();
    }

    /// Deselects every link.
    pub fn clear_link_selection(&mut self)
        ensures
            final(self).state.selected_link_indices@.len() == 0,
            final(self).state.selected_node_indices@ == old(self).state.selected_node_indices@,
            final(self).state.node_depth_order@ == old(self).state.node_depth_order@,
            final(self).state.click_interaction_type == old(self).state.click_interaction_type,
            final(self).state.link_creation == old(self).state.link_creation,
            final(self).state.interaction_state == old(self).state.interaction_state,
            final(self).frame_state == old(self).frame_state,
            final(self).nodes@ == old(self).nodes@,
    {
        self.state.selected_link_indices.clear();
    }

    /// The pin being interacted with, if any.
    pub fn active_attribute(&self) -> (r: Option<usize>)
        ensures
            r == self.frame_state.active_pin,
    {
        self.frame_state.active_pin
    }

    /// The link detached this frame, if any.
    pub fn link_destroyed(&self) -> (r: Option<usize>)
        ensures
            r == self.frame_state.deleted_link_idx,
    {
        self.frame_state.deleted_link_idx
    }

    /// The changes to the graph made this frame, in order.
    pub fn get_changes(&self) -> (r: &Vec<GraphChange<P>>)
        ensures
            r@ == self.frame_state.graph_changes@,
    {
        &self.frame_state.graph_changes
    }
}

} // verus!
