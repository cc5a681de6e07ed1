//! The decisions of the skeleton collider editor's bone inspector: which
//! colliders of the selected bone can be picked, which edit buffer the pick
//! edits, and what the Apply and Delete buttons queue. Drawing the widgets
//! is the caller's.
use vstd::prelude::*;
use crate::key_map::KeyMap;

verus! {

/// What can be picked in the bone inspector.
#[derive(Debug, Clone, Copy, PartialEq, Eq, Structural)]
pub enum SelectableCollider {
    /// No collider picked.
    Nothing,
    New,
    Existing(u128),
}

/// The choices offered for a bone with the colliders `ids`: each of them,
/// in order, then a new collider.
pub open spec fn collider_choices_for(ids: Seq<u128>) -> Seq<SelectableCollider> {
    ids.map_values(|id: u128| SelectableCollider::Existing(id)).push(SelectableCollider::New)
}

/// The choices offered for a bone with the colliders `ids`.
pub fn collider_choices(ids: &Vec<u128>) -> (r: Vec<SelectableCollider>)
    ensures
        r@ == collider_choices_for(ids@),
{
    let mut r: Vec<SelectableCollider> = Vec::new();
    let mut i: usize = 0;
    while i < ids.len()
        invariant
            i <= ids@.len(),
            r@ == ids@.take(i as int).map_values(|id: u128| SelectableCollider::Existing(id)),
        decreases ids@.len() - i,
    {
        r.push(SelectableCollider::Existing(ids[i]));
        proof {
            assert(ids@.take(i as int + 1) =~= ids@.take(i as int).push(ids@[i as int]));
            assert(r@ =~= ids@.take(i as int + 1).map_values(|id: u128| SelectableCollider::Existing(id)));
        }
        i = i + 1;
    }
    r.push(SelectableCollider::New);
    proof {
        assert(ids@.take(ids@.len() as int) =~= ids@);
    }
    r
}

/// The first collider of `cfgs` with id `id`.
pub open spec fn config_with_id<T>(cfgs: Seq<(u128, T)>, id: u128) -> Option<T>
    decreases cfgs.len(),
{
    if cfgs.len() == 0 {
        None
    } else if cfgs[0].0 == id {
        Some(cfgs[0].1)
    } else {
        config_with_id(cfgs.drop_first(), id)
    }
}

/// A copy of the configuration of the collider `id` among `cfgs`.
fn find_config<T: Clone>(cfgs: &Vec<(u128, T)>, id: u128) -> (r: Option<T>)
    ensures
        match config_with_id(cfgs@, id) {
            Some(c) => r matches Some(x) && cloned(c, x),
            None => r is None,
        },
{
    let mut i: usize = 0;
    proof {
        assert(cfgs@.skip(0) =~= cfgs@);
    }
    while i < cfgs.len()
        invariant
            i <= cfgs@.len(),
            config_with_id(cfgs@, id) == config_with_id(cfgs@.skip(i as int), id),
        decreases cfgs@.len() - i,
    {
        proof {
            assert(cfgs@.skip(i as int).drop_first() =~= cfgs@.skip(i as int + 1));
            assert(cfgs@.skip(i as int)[0] == cfgs@[i as int]);
        }
        if cfgs[i].0 == id {
            return Some(cfgs[i].1.clone());
        }
        i = i + 1;
    }
    None
}

/// The edit buffers of the bone inspector: one for a new collider, and one
/// for each existing collider being edited, by its id.
pub struct ColliderBuffers<T> {
    pub new: Option<T>,
    pub existing: KeyMap<u128, T>,
}

/// A request that the bone inspector queues.
#[derive(Debug)]
pub enum BoneColliderRequest<T> {
    /// Create or replace the collider with this configuration.
    CreateOrEdit(T),
    /// Delete the collider `collider` of the bone `bone`.
    Delete { bone: u128, collider: u128 },
}

impl<T: Clone> ColliderBuffers<T> {
    pub open spec fn has_buffer(&self, sel: SelectableCollider) -> bool {
        match sel {
            SelectableCollider::Nothing => false,
            SelectableCollider::New => self.new is Some,
            SelectableCollider::Existing(id) => self.existing.view_map().contains_key(id),
        }
    }

    /// Makes sure the pick `sel` has an edit buffer where it can: one kept
    /// from before stays; a new collider starts as `fresh`; an existing
    /// one starts as a copy of its configuration among the bone's
    /// colliders `cfgs` (nothing where it is not among them); nothing is
    /// picked, nothing is edited. Tells whether the pick now has a buffer.
    pub fn ensure_buffer(&mut self, sel: SelectableCollider, cfgs: &Vec<(u128, T)>, fresh: T) -> (has: bool)
        requires
            old(self).existing.wf(),
        ensures
            final(self).existing.wf(),
            has == final(self).has_buffer(sel),
            old(self).has_buffer(sel) ==> final(self).new == old(self).new && final(self).existing.view_map() == old(self).existing.view_map(),
            !old(self).has_buffer(sel) ==> match sel {
                SelectableCollider::Nothing => final(self).new == old(self).new && final(self).existing.view_map() == old(self).existing.view_map(),
                SelectableCollider::New => final(self).new == Some(fresh) && final(self).existing.view_map() == old(self).existing.view_map(),
                SelectableCollider::Existing(id) => {
                    &&& final(self).new == old(self).new
                    &&& match config_with_id(cfgs@, id) {
                        Some(c) => {
                            &&& final(self).existing.view_map() == old(self).existing.view_map().insert(id, final(self).existing.view_map()[id])
                            &&& cloned(c, final(self).existing.view_map()[id])
                        },
                        None => final(self).existing.view_map() == old(self).existing.view_map(),
                    }
                },
            },
    {
        match sel {
            SelectableCollider::Nothing => false,
            SelectableCollider::New => {
                if self.new.is_none() {
                    self.new = Some(fresh);
                }
                true
            },
            SelectableCollider::Existing(id) => {
                if self.existing.contains(&id) {
                    true
                } else {
                    match find_config(cfgs, id) {
                        Some(c) => {
                            self.existing.insert(id, c);
                            true
                        },
                        None => false,
                    }
                }
            },
        }
    }

    /// Forgets every buffer.
    pub fn clear(&mut self)
        ensures
            final(self).new is None,
            final(self).existing.wf(),
            final(self).existing.view_map() == Map::<u128, T>::empty(),
    {
        self.new = None;
        self.existing = KeyMap::new();
    }
}

/// Pressing Apply with the buffer `cfg` of the bone `bone`'s picked
/// collider: the configuration is submitted and the buffers start over.
pub fn apply_collider<T: Clone>(buffers: &mut ColliderBuffers<T>, cfg: &T, queue: &mut Vec<BoneColliderRequest<T>>)
    ensures
        final(buffers).new is None,
        final(buffers).existing.wf(),
        final(buffers).existing.view_map() == Map::<u128, T>::empty(),
        final(queue)@.len() == old(queue)@.len() + 1,
        final(queue)@.take(old(queue)@.len() as int) == old(queue)@,
        final(queue)@.last() matches BoneColliderRequest::CreateOrEdit(c) && cloned(*cfg, c),
{
    queue.push(BoneColliderRequest::CreateOrEdit(cfg.clone()));
    proof {
        assert(queue@.take(old(queue)@.len() as int) =~= old(queue)@);
    }
    buffers.clear();
}

/// Pressing Delete with the picked collider `collider` of the bone `bone`:
/// its deletion is requested and the buffers start over.
pub fn delete_collider<T: Clone>(
    buffers: &mut ColliderBuffers<T>,
    bone: u128,
    collider: u128,
    queue: &mut Vec<BoneColliderRequest<T>>,
)
    ensures
        final(buffers).new is None,
        final(buffers).existing.wf(),
        final(buffers).existing.view_map() == Map::<u128, T>::empty(),
        final(queue)@.len() == old(queue)@.len() + 1,
        final(queue)@.take(old(queue)@.len() as int) == old(queue)@,
        final(queue)@.last() matches BoneColliderRequest::Delete { bone: b, collider: c } && b == bone && c == collider,
{
    queue.push(BoneColliderRequest::Delete { bone, collider });
    proof {
        assert(queue@.take(old(queue)@.len() as int) =~= old(queue)@);
    }
    buffers.clear();
}

} // verus!
