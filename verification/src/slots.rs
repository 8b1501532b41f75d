//! The virtual workspaces, each in a slot of its own.
use crate::workspace::{VirtualWorkspace, WorkspaceView};
use crate::workspace_id::VirtualWorkspaceId;
use slotmap::{DefaultKey, Key, SlotMap};
use vstd::prelude::*;

verus! {

/// A slot map of workspaces.
#[verifier::external_body]
#[derive(Debug)]
pub struct WorkspaceSlots {
    slots: SlotMap<DefaultKey, VirtualWorkspace>,
}

/// What a slot map holds.
pub uninterp spec fn slot_contents(slots: WorkspaceSlots) -> Map<
    VirtualWorkspaceId,
    VirtualWorkspace,
>;

/// The number of workspaces that fit into a slot map.
pub const SLOT_LIMIT: usize = 0xFFFF_FFFE;

/// The contents of each workspace.
pub open spec fn views(workspaces: Map<VirtualWorkspaceId, VirtualWorkspace>) -> Map<
    VirtualWorkspaceId,
    WorkspaceView,
> {
    workspaces.map_values(|w: VirtualWorkspace| w@)
}

pub broadcast proof fn lemma_views_insert(
    workspaces: Map<VirtualWorkspaceId, VirtualWorkspace>,
    id: VirtualWorkspaceId,
    w: VirtualWorkspace,
)
    ensures
        #[trigger] views(workspaces.insert(id, w)) == views(workspaces).insert(id, w@),
{
    assert(views(workspaces.insert(id, w)) =~= views(workspaces).insert(id, w@));
}

pub broadcast proof fn lemma_views_remove(
    workspaces: Map<VirtualWorkspaceId, VirtualWorkspace>,
    id: VirtualWorkspaceId,
)
    ensures
        #[trigger] views(workspaces.remove(id)) == views(workspaces).remove(id),
{
    assert(views(workspaces.remove(id)) =~= views(workspaces).remove(id));
}

pub broadcast proof fn lemma_views_dom(workspaces: Map<VirtualWorkspaceId, VirtualWorkspace>)
    ensures
        (#[trigger] views(workspaces)).dom() == workspaces.dom(),
        views(workspaces).len() == workspaces.len(),
        forall|id: VirtualWorkspaceId| #[trigger]
            views(workspaces).contains_key(id) ==> views(workspaces)[id] == workspaces[id]@,
{
    assert(views(workspaces).dom() =~= workspaces.dom());
}

impl View for WorkspaceSlots {
    type V = Map<VirtualWorkspaceId, WorkspaceView>;

    open spec fn view(&self) -> Map<VirtualWorkspaceId, WorkspaceView> {
        views(slot_contents(*self))
    }
}

impl WorkspaceSlots {
    /// `SlotMap::default`: a slot map that holds nothing.
    #[verifier::external_body]
    pub(crate) fn new() -> (r: Self)
        ensures
            slot_contents(r).dom() == Set::<VirtualWorkspaceId>::empty(),
    {
        WorkspaceSlots { slots: SlotMap::default() }
    }

    /// `SlotMap::insert`: the workspace is stored under a key that held nothing,
    /// and nothing else changes, so that there is one more. It panics when
    /// every slot is taken, of which there are `SLOT_LIMIT`.
    #[verifier::external_body]
    pub(crate) fn insert(&mut self, workspace: VirtualWorkspace) -> (r: VirtualWorkspaceId)
        requires
            slot_contents(*old(self)).len() < SLOT_LIMIT,
        ensures
            !slot_contents(*old(self)).contains_key(r),
            slot_contents(*final(self)) == slot_contents(*old(self)).insert(r, workspace),
            slot_contents(*final(self)).len() == slot_contents(*old(self)).len() + 1,
    {
        VirtualWorkspaceId(self.slots.insert(workspace).data())
    }

    /// `SlotMap::get`: the workspace under the key, where the slot map has one.
    #[verifier::external_body]
    pub(crate) fn get(&self, id: VirtualWorkspaceId) -> (r: Option<&VirtualWorkspace>)
        ensures
            match r {
                Some(w) => slot_contents(*self).contains_key(id) && *w == slot_contents(*self)[id],
                None => !slot_contents(*self).contains_key(id),
            },
    {
        self.slots.get(DefaultKey::from(id.0))
    }

    /// `SlotMap::get_mut`: the workspace under the key, to change in place.
    #[verifier::external_body]
    pub(crate) fn get_mut(&mut self, id: VirtualWorkspaceId) -> (r: Option<&mut VirtualWorkspace>)
        ensures
            match r {
                Some(w) => slot_contents(*old(self)).contains_key(id) && *w == slot_contents(
                    *old(self),
                )[id] && slot_contents(*final(self)) == slot_contents(*old(self)).insert(
                    id,
                    *final(w),
                ),
                None => !slot_contents(*old(self)).contains_key(id) && slot_contents(*final(self))
                    == slot_contents(*old(self)),
            },
    {
        self.slots.get_mut(DefaultKey::from(id.0))
    }

    /// `SlotMap::remove`: the key holds nothing afterwards; what it held is
    /// returned.
    #[verifier::external_body]
    pub(crate) fn remove(&mut self, id: VirtualWorkspaceId) -> (r: Option<VirtualWorkspace>)
        ensures
            slot_contents(*final(self)) == slot_contents(*old(self)).remove(id),
            match r {
                Some(w) => slot_contents(*old(self)).contains_key(id) && w == slot_contents(
                    *old(self),
                )[id],
                None => !slot_contents(*old(self)).contains_key(id),
            },
    {
        self.slots.remove(DefaultKey::from(id.0))
    }

    /// `SlotMap::contains_key`: the key holds a workspace.
    #[verifier::external_body]
    pub(crate) fn contains_key(&self, id: VirtualWorkspaceId) -> (r: bool)
        ensures
            r == slot_contents(*self).contains_key(id),
    {
        self.slots.contains_key(DefaultKey::from(id.0))
    }

    /// `SlotMap::len`: the number of keys that hold a workspace, of which there
    /// are finitely many.
    #[verifier::external_body]
    pub(crate) fn len(&self) -> (r: usize)
        ensures
            r == slot_contents(*self).len(),
            r <= SLOT_LIMIT,
    {
        self.slots.len()
    }

    /// `SlotMap::keys`: each key that holds a workspace, once; nothing is
    /// claimed of their order.
    #[verifier::external_body]
    pub(crate) fn keys(&self) -> (r: Vec<VirtualWorkspaceId>)
        ensures
            r@.no_duplicates(),
            r@.to_set() == slot_contents(*self).dom(),
    {
        self.slots.keys().map(|key| VirtualWorkspaceId(key.data())).collect()
    }
}

} // verus!
