//! The client's side of the protocol: its own identity and its mirror of the
//! server's objects.
//!
//! The client does not own the local objects. For every record received, this
//! module says whether a local object is to be moved or created; the caller
//! does so and reports the handle of what it created.

use vstd::prelude::*;
use crate::ids::NetIDType;
use crate::messages::ClientMessage;
use crate::records::{EnemyPackage, MyVec2, MyVec3, PlayerPackage};
use crate::registry::{Handle, IdentityRegistry, RegistryError};

verus! {

/// The two kinds of replicated objects.
#[derive(Clone, Copy, Debug, PartialEq, Eq, Structural)]
pub enum ObjectKind {
    Player,
    Autonomous,
}

/// What is to happen to the local mirror after one record.
#[derive(Clone, Copy, Debug, PartialEq, Eq, Structural)]
pub enum ClientAction {
    /// The object is known: move it.
    MoveTo { handle: Handle, position: MyVec3 },
    /// The object is seen for the first time: create it, then report its
    /// handle with `on_created`.
    Create { kind: ObjectKind, net_id: NetIDType, position: MyVec3, radius: Option<u32> },
}

/// The action for a record of an object of the given kind.
pub open spec fn action_for(
    ids: Map<NetIDType, Handle>,
    kind: ObjectKind,
    net_id: NetIDType,
    position: MyVec3,
    radius: Option<u32>,
) -> ClientAction {
    if ids.contains_key(net_id) {
        ClientAction::MoveTo { handle: ids[net_id], position }
    } else {
        ClientAction::Create { kind, net_id, position, radius }
    }
}

/// The client's protocol state.
pub struct Client {
    own_id: Option<NetIDType>,
    registry: IdentityRegistry,
}

impl Client {
    /// The identifier of the client's own player, once the server has
    /// assigned it.
    pub closed spec fn own_id(&self) -> Option<NetIDType> {
        self.own_id
    }

    /// The local handle of each mirrored identifier.
    pub closed spec fn ids(&self) -> Map<NetIDType, Handle> {
        self.registry.ids()
    }

    /// The identifier of each local handle.
    pub closed spec fn handles(&self) -> Map<Handle, NetIDType> {
        self.registry.handles()
    }

    /// The mirror's two directions agree.
    pub closed spec fn wf(&self) -> bool {
        self.registry.wf()
    }

    /// A client that knows no object and not its own identity.
    pub fn new() -> (client: Self)
        ensures
            client.wf(),
            client.own_id() == None::<NetIDType>,
            client.ids() == Map::<NetIDType, Handle>::empty(),
            client.handles() == Map::<Handle, NetIDType>::empty(),
    {
        Client { own_id: None, registry: IdentityRegistry::new() }
    }

    /// The registry of the mirrored objects.
    pub fn registry(&self) -> (registry: &IdentityRegistry)
        ensures
            registry.ids() == self.ids(),
            registry.handles() == self.handles(),
            self.wf() ==> registry.wf(),
    {
        &self.registry
    }

    /// The identifier of the client's own player, if known.
    pub fn my_id(&self) -> (id: Option<NetIDType>)
        ensures
            id == self.own_id(),
    {
        self.own_id
    }

    /// The server accepted the login: `id` is the client's own identity from
    /// now on.
    pub fn on_accepted(&mut self, id: NetIDType)
        ensures
            final(self).own_id() == Some(id),
            final(self).ids() == old(self).ids(),
            final(self).handles() == old(self).handles(),
            final(self).wf() == old(self).wf(),
    {
        self.own_id = Some(id);
    }

    /// What one enemy record asks of the mirror.
    pub fn reconcile_enemy(&self, record: &EnemyPackage) -> (action: ClientAction)
        ensures
            action == action_for(
                self.ids(),
                ObjectKind::Autonomous,
                record.net_id,
                record.position,
                Some(record.radius),
            ),
    {
        match self.registry.lookup_by_id(record.net_id) {
            Some(handle) => ClientAction::MoveTo { handle, position: record.position },
            None => ClientAction::Create {
                kind: ObjectKind::Autonomous,
                net_id: record.net_id,
                position: record.position,
                radius: Some(record.radius),
            },
        }
    }

    /// What one player record asks of the mirror.
    pub fn reconcile_player(&self, record: &PlayerPackage) -> (action: ClientAction)
        ensures
            action == action_for(
                self.ids(),
                ObjectKind::Player,
                record.net_id,
                record.position,
                None,
            ),
    {
        match self.registry.lookup_by_id(record.net_id) {
            Some(handle) => ClientAction::MoveTo { handle, position: record.position },
            None => ClientAction::Create {
                kind: ObjectKind::Player,
                net_id: record.net_id,
                position: record.position,
                radius: None,
            },
        }
    }

    /// The local object for `net_id` was created and has the handle
    /// `handle`. Refused, with nothing changed, when either is bound already.
    pub fn on_created(&mut self, net_id: NetIDType, handle: Handle) -> (bound: Result<
        (),
        RegistryError,
    >)
        requires
            old(self).wf(),
        ensures
            final(self).wf(),
            final(self).own_id() == old(self).own_id(),
            bound is Err <==> old(self).ids().contains_key(net_id)
                || old(self).handles().contains_key(handle),
            bound is Err ==> final(self).ids() == old(self).ids()
                && final(self).handles() == old(self).handles(),
            bound is Ok ==> final(self).ids() == old(self).ids().insert(net_id, handle)
                && final(self).handles() == old(self).handles().insert(handle, net_id),
    {
        self.registry.bind(handle, net_id)
    }

    /// The message that submits `velocity` for the client's own player: none
    /// while the client does not know its identity.
    pub fn intent(&self, velocity: MyVec2) -> (message: Option<ClientMessage>)
        ensures
            message == (match self.own_id() {
                Some(id) => Some(ClientMessage::SetVelocity(id, velocity)),
                None => None,
            }),
    {
        match self.own_id {
            Some(id) => Some(ClientMessage::SetVelocity(id, velocity)),
            None => None,
        }
    }
}

} // verus!
