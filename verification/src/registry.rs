//! The two-way mapping between network identifiers and local object handles.

use std::collections::HashMap;
use vstd::prelude::*;
use crate::ids::NetIDType;

verus! {

broadcast use vstd::std_specs::hash::group_hash_axioms;

/// An opaque local reference to a simulation object.
pub type Handle = u64;

/// Why a registry operation was refused.
#[derive(Clone, Copy, Debug, PartialEq, Eq, Structural)]
pub enum RegistryError {
    /// The handle or the identifier is already bound.
    DuplicateBinding,
}

/// Whether two maps are inverse to each other.
pub open spec fn inverse_maps(
    ids: Map<NetIDType, Handle>,
    handles: Map<Handle, NetIDType>,
) -> bool {
    &&& forall|id: NetIDType| #[trigger]
        ids.contains_key(id) ==> handles.contains_key(ids[id]) && handles[ids[id]] == id
    &&& forall|handle: Handle| #[trigger]
        handles.contains_key(handle) ==> ids.contains_key(handles[handle]) && ids[handles[handle]]
            == handle
}

/// Identifiers and handles, each bound to at most one of the other kind.
pub struct IdentityRegistry {
    by_handle: HashMap<Handle, NetIDType>,
    by_id: HashMap<NetIDType, Handle>,
}

impl IdentityRegistry {
    /// The handle of each bound identifier.
    pub closed spec fn ids(&self) -> Map<NetIDType, Handle> {
        self.by_id@
    }

    /// The identifier of each bound handle.
    pub closed spec fn handles(&self) -> Map<Handle, NetIDType> {
        self.by_handle@
    }

    /// The two directions agree.
    pub open spec fn wf(&self) -> bool {
        inverse_maps(self.ids(), self.handles())
    }

    /// A registry with nothing bound.
    pub fn new() -> (registry: Self)
        ensures
            registry.wf(),
            registry.ids() == Map::<NetIDType, Handle>::empty(),
            registry.handles() == Map::<Handle, NetIDType>::empty(),
    {
        IdentityRegistry { by_handle: HashMap::new(), by_id: HashMap::new() }
    }

    /// Binds `handle` and `id` to each other. Refused, with nothing changed,
    /// when either is bound already.
    pub fn bind(&mut self, handle: Handle, id: NetIDType) -> (bound: Result<(), RegistryError>)
        requires
            old(self).wf(),
        ensures
            final(self).wf(),
            bound is Err <==> old(self).handles().contains_key(handle)
                || old(self).ids().contains_key(id),
            bound is Err ==> final(self).ids() == old(self).ids()
                && final(self).handles() == old(self).handles(),
            bound is Ok ==> final(self).ids() == old(self).ids().insert(id, handle)
                && final(self).handles() == old(self).handles().insert(handle, id),
    {
        if self.by_handle.contains_key(&handle) || self.by_id.contains_key(&id) {
            return Err(RegistryError::DuplicateBinding);
        }
        self.by_handle.insert(handle, id);
        self.by_id.insert(id, handle);
        Ok(())
    }

    /// Removes the binding of `id`, in both directions. Nothing changes when
    /// `id` is not bound.
    pub fn unbind(&mut self, id: NetIDType)
        requires
            old(self).wf(),
        ensures
            final(self).wf(),
            final(self).ids() == old(self).ids().remove(id),
            old(self).ids().contains_key(id) ==> final(self).handles()
                == old(self).handles().remove(old(self).ids()[id]),
            !old(self).ids().contains_key(id) ==> final(self).handles() == old(self).handles(),
    {
        match self.by_id.remove(&id) {
            Some(handle) => {
                self.by_handle.remove(&handle);
            },
            None => {
                assert(self.by_id@ =~= old(self).by_id@);
            },
        }
    }

    /// The handle bound to `id`.
    pub fn lookup_by_id(&self, id: NetIDType) -> (found: Option<Handle>)
        ensures
            found == (if self.ids().contains_key(id) {
                Some(self.ids()[id])
            } else {
                None
            }),
    {
        match self.by_id.get(&id) {
            Some(handle) => Some(*handle),
            None => None,
        }
    }

    /// The identifier bound to `handle`.
    pub fn lookup_by_handle(&self, handle: Handle) -> (found: Option<NetIDType>)
        ensures
            found == (if self.handles().contains_key(handle) {
                Some(self.handles()[handle])
            } else {
                None
            }),
    {
        match self.by_handle.get(&handle) {
            Some(id) => Some(*id),
            None => None,
        }
    }

    /// The number of bindings.
    pub fn len(&self) -> (count: usize)
        ensures
            count == self.ids().len(),
    {
        self.by_id.len()
    }
}

/// In a registry whose directions agree, every bound identifier has exactly
/// one handle that maps back to it, and every bound handle has exactly one
/// identifier that maps back to it.
pub proof fn lemma_registry_bijection(registry: IdentityRegistry)
    requires
        registry.wf(),
    ensures
        forall|id: NetIDType| #[trigger]
            registry.ids().contains_key(id) ==> {
                &&& registry.handles().contains_key(registry.ids()[id])
                &&& forall|handle: Handle|
                    registry.handles().contains_key(handle) && #[trigger] registry.handles()[handle]
                        == id ==> handle == registry.ids()[id]
            },
        forall|handle: Handle| #[trigger]
            registry.handles().contains_key(handle) ==> {
                &&& registry.ids().contains_key(registry.handles()[handle])
                &&& forall|id: NetIDType|
                    registry.ids().contains_key(id) && #[trigger] registry.ids()[id] == handle
                        ==> id == registry.handles()[handle]
            },
{
}

} // verus!
