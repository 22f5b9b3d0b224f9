//! The server's side of the protocol: sessions, logins, velocity intents.
//!
//! The server does not own the simulation. Each step here takes what the
//! simulation reported and says what the simulation is to do next; the caller
//! carries both ways.

use vstd::prelude::*;
use crate::ids::{IDCounter, NetIDType};
use crate::messages::{ClientMessage, ServerMessage};
use crate::records::{MyVec2, MyVec3};
use crate::registry::{Handle, IdentityRegistry, RegistryError};

verus! {

/// Bit pattern of the x coordinate at which a new player appears, 200.
pub const PLAYER_SPAWN_X: u32 = 0x4348_0000;

/// Bit pattern of the y coordinate at which a new player appears, 0.
pub const PLAYER_SPAWN_Y: u32 = 0;

/// Bit pattern of the z coordinate at which a new player appears, 1.
pub const PLAYER_SPAWN_Z: u32 = 0x3f80_0000;

/// Bit pattern of a new player's radius, 20.
pub const PLAYER_RADIUS: u32 = 0x41a0_0000;

/// Bit pattern of the x component of a new player's velocity, -200.
pub const PLAYER_START_VELOCITY_X: u32 = 0xc348_0000;

/// Bit pattern of the y component of a new player's velocity, 0.
pub const PLAYER_START_VELOCITY_Y: u32 = 0;

/// The network address of a peer. An IPv4 address is held in its IPv6-mapped
/// form.
#[derive(Clone, Copy, Debug, PartialEq, Eq, Hash, Structural)]
pub struct PeerAddr {
    pub ip: u128,
    pub port: u16,
}

/// One connected player: where its datagrams come from, and its player
/// object's identifier and handle.
#[derive(Clone, Copy, Debug, PartialEq, Eq, Structural)]
pub struct Session {
    pub addr: PeerAddr,
    pub net_id: NetIDType,
    pub handle: Handle,
}

/// What the simulation is to do after a message.
#[derive(Clone, Copy, Debug, PartialEq, Eq, Structural)]
pub enum ServerAction {
    Nothing,
    /// Create a live player for `peer`, then report its handle with
    /// `on_player_spawned`.
    SpawnPlayer { peer: PeerAddr, position: MyVec3, radius: u32, velocity: MyVec2 },
    /// Set the velocity of the player behind `handle`. If there is no live
    /// player behind it, report `net_id` with `on_intent_rejected`.
    SetVelocity { net_id: NetIDType, handle: Handle, velocity: MyVec2 },
}

/// The sessions of `sessions` whose identifier is not `net_id`, in their order.
pub open spec fn without_id(sessions: Seq<Session>, net_id: NetIDType) -> Seq<Session>
    decreases sessions.len(),
{
    if sessions.len() == 0 {
        Seq::empty()
    } else if sessions.last().net_id == net_id {
        without_id(sessions.drop_last(), net_id)
    } else {
        without_id(sessions.drop_last(), net_id).push(sessions.last())
    }
}

/// Whether one of `sessions` has the address `addr`.
pub open spec fn has_addr(sessions: Seq<Session>, addr: PeerAddr) -> bool {
    exists|i: int| 0 <= i < sessions.len() && #[trigger] sessions[i].addr == addr
}

/// The server's protocol state.
pub struct Server {
    counter: IDCounter,
    registry: IdentityRegistry,
    sessions: Vec<Session>,
}

impl Server {
    /// The sessions, oldest first.
    pub closed spec fn sessions(&self) -> Seq<Session> {
        self.sessions@
    }

    /// The handle of each bound identifier.
    pub closed spec fn ids(&self) -> Map<NetIDType, Handle> {
        self.registry.ids()
    }

    /// The identifier of each bound handle.
    pub closed spec fn handles(&self) -> Map<Handle, NetIDType> {
        self.registry.handles()
    }

    /// The identifier that is handed out next.
    pub closed spec fn next_id(&self) -> nat {
        self.counter.next_id()
    }

    /// The state is consistent: the registry's two directions agree, no
    /// address has two sessions, every session's identifier is bound to its
    /// handle, and every bound identifier has been handed out.
    pub closed spec fn wf(&self) -> bool {
        &&& self.registry.wf()
        &&& forall|i: int, j: int|
            0 <= i < self.sessions@.len() && 0 <= j < self.sessions@.len()
                && #[trigger] self.sessions@[i].addr == #[trigger] self.sessions@[j].addr ==> i
                == j
        &&& forall|i: int|
            0 <= i < self.sessions@.len() ==> self.registry.ids().contains_key(
                #[trigger] self.sessions@[i].net_id,
            ) && self.registry.ids()[self.sessions@[i].net_id] == self.sessions@[i].handle
        &&& forall|id: NetIDType| #[trigger]
            self.registry.ids().contains_key(id) ==> id < self.counter.next_id()
    }

    /// A server without sessions or objects, whose first identifier is zero.
    pub fn new() -> (server: Self)
        ensures
            server.wf(),
            server.sessions() == Seq::<Session>::empty(),
            server.ids() == Map::<NetIDType, Handle>::empty(),
            server.handles() == Map::<Handle, NetIDType>::empty(),
            server.next_id() == 0,
    {
        Server {
            counter: IDCounter::new(),
            registry: IdentityRegistry::new(),
            sessions: Vec::new(),
        }
    }

    /// The registry of the server's objects.
    pub fn registry(&self) -> (registry: &IdentityRegistry)
        ensures
            registry.ids() == self.ids(),
            registry.handles() == self.handles(),
            self.wf() ==> registry.wf(),
    {
        &self.registry
    }

    /// Whether another identifier can be handed out.
    pub fn can_allocate(&self) -> (yes: bool)
        ensures
            yes == (self.next_id() < u128::MAX),
    {
        self.counter.has_next()
    }

    /// The number of sessions.
    pub fn session_count(&self) -> (count: usize)
        ensures
            count == self.sessions().len(),
    {
        self.sessions.len()
    }

    /// The session at `index`, counted from the oldest.
    pub fn session_at(&self, index: usize) -> (session: Session)
        requires
            index < self.sessions().len(),
        ensures
            session == self.sessions()[index as int],
    {
        self.sessions[index]
    }

    /// Whether `addr` has a session.
    pub fn has_session(&self, addr: PeerAddr) -> (yes: bool)
        ensures
            yes == has_addr(self.sessions(), addr),
    {
        let mut at: usize = 0;
        while at < self.sessions.len()
            invariant
                at <= self.sessions@.len(),
                forall|i: int| 0 <= i < at ==> self.sessions@[i].addr != addr,
            decreases self.sessions.len() - at,
        {
            let session: Session = self.sessions[at];
            if session.addr.ip == addr.ip && session.addr.port == addr.port {
                return true;
            }
            at = at + 1;
        }
        false
    }

    /// Gives a new autonomous object its identifier. Refused, with nothing
    /// changed, when the handle is bound already.
    pub fn register_autonomous(&mut self, handle: Handle) -> (registered: Result<
        NetIDType,
        RegistryError,
    >)
        requires
            old(self).wf(),
            old(self).next_id() < u128::MAX,
        ensures
            final(self).wf(),
            final(self).sessions() == old(self).sessions(),
            registered is Err <==> old(self).handles().contains_key(handle),
            registered is Err ==> {
                &&& final(self).ids() == old(self).ids()
                &&& final(self).handles() == old(self).handles()
                &&& final(self).next_id() == old(self).next_id()
            },
            registered matches Ok(id) ==> {
                &&& id == old(self).next_id()
                &&& final(self).next_id() == id + 1
                &&& final(self).ids() == old(self).ids().insert(id, handle)
                &&& final(self).handles() == old(self).handles().insert(handle, id)
            },
    {
        if self.registry.lookup_by_handle(handle).is_some() {
            return Err(RegistryError::DuplicateBinding);
        }
        let id: NetIDType = self.counter.allocate();
        let bound = self.registry.bind(handle, id);
        assert(bound is Ok);
        Ok(id)
    }

    /// What a message from `from` asks of the simulation. The state does not
    /// change until the simulation has answered.
    ///
    /// A login from an address without a session asks for a new player; from
    /// an address that has one it asks for nothing. A velocity intent asks
    /// for the velocity to be set, as received, on the object bound to its
    /// identifier; for an identifier that is not bound it asks for nothing.
    pub fn on_message(&self, from: PeerAddr, message: ClientMessage) -> (action: ServerAction)
        ensures
            action == self.action_for(from, message),
    {
        match message {
            ClientMessage::Login => {
                if self.has_session(from) {
                    ServerAction::Nothing
                } else {
                    ServerAction::SpawnPlayer {
                        peer: from,
                        position: MyVec3 {
                            x: PLAYER_SPAWN_X,
                            y: PLAYER_SPAWN_Y,
                            z: PLAYER_SPAWN_Z,
                        },
                        radius: PLAYER_RADIUS,
                        velocity: MyVec2 { x: PLAYER_START_VELOCITY_X, y: PLAYER_START_VELOCITY_Y },
                    }
                }
            },
            ClientMessage::SetVelocity(net_id, velocity) => {
                match self.registry.lookup_by_id(net_id) {
                    Some(handle) => ServerAction::SetVelocity { net_id, handle, velocity },
                    None => ServerAction::Nothing,
                }
            },
        }
    }

    /// The action that `on_message` returns.
    pub open spec fn action_for(&self, from: PeerAddr, message: ClientMessage) -> ServerAction {
        match message {
            ClientMessage::Login => if has_addr(self.sessions(), from) {
                ServerAction::Nothing
            } else {
                ServerAction::SpawnPlayer {
                    peer: from,
                    position: MyVec3 { x: PLAYER_SPAWN_X, y: PLAYER_SPAWN_Y, z: PLAYER_SPAWN_Z },
                    radius: PLAYER_RADIUS,
                    velocity: MyVec2 { x: PLAYER_START_VELOCITY_X, y: PLAYER_START_VELOCITY_Y },
                }
            },
            ClientMessage::SetVelocity(net_id, velocity) => if self.ids().contains_key(net_id) {
                ServerAction::SetVelocity { net_id, handle: self.ids()[net_id], velocity }
            } else {
                ServerAction::Nothing
            },
        }
    }

    /// Completes a login: the simulation has created the player for `peer`
    /// and reports its handle. The player gets the next identifier, the
    /// session is recorded, and the reply for `peer` is returned. Refused,
    /// with nothing changed, when `peer` has a session or `handle` is bound.
    pub fn on_player_spawned(&mut self, peer: PeerAddr, handle: Handle) -> (reply: Result<
        (PeerAddr, ServerMessage),
        RegistryError,
    >)
        requires
            old(self).wf(),
            old(self).next_id() < u128::MAX,
        ensures
            final(self).wf(),
            reply is Err <==> has_addr(old(self).sessions(), peer)
                || old(self).handles().contains_key(handle),
            reply is Err ==> {
                &&& final(self).sessions() == old(self).sessions()
                &&& final(self).ids() == old(self).ids()
                &&& final(self).handles() == old(self).handles()
                &&& final(self).next_id() == old(self).next_id()
            },
            reply matches Ok(sent) ==> {
                let id = old(self).next_id() as u128;
                &&& sent.0 == peer
                &&& sent.1 == ServerMessage::Accepted(id)
                &&& final(self).next_id() == id + 1
                &&& final(self).ids() == old(self).ids().insert(id, handle)
                &&& final(self).handles() == old(self).handles().insert(handle, id)
                &&& final(self).sessions() == old(self).sessions().push(
                    Session { addr: peer, net_id: id, handle },
                )
            },
    {
        if self.has_session(peer) {
            return Err(RegistryError::DuplicateBinding);
        }
        if self.registry.lookup_by_handle(handle).is_some() {
            return Err(RegistryError::DuplicateBinding);
        }
        let id: NetIDType = self.counter.allocate();
        let bound = self.registry.bind(handle, id);
        assert(bound is Ok);
        self.sessions.push(Session { addr: peer, net_id: id, handle });
        Ok((peer, ServerMessage::Accepted(id)))
    }

    /// Purges a stale identifier: the simulation found no live player behind
    /// the handle of `net_id`. The binding goes, in both directions, and so
    /// does every session of that identifier. Nothing is sent to anyone.
    pub fn on_intent_rejected(&mut self, net_id: NetIDType)
        requires
            old(self).wf(),
        ensures
            final(self).wf(),
            final(self).next_id() == old(self).next_id(),
            final(self).ids() == old(self).ids().remove(net_id),
            old(self).ids().contains_key(net_id) ==> final(self).handles()
                == old(self).handles().remove(old(self).ids()[net_id]),
            !old(self).ids().contains_key(net_id) ==> final(self).handles() == old(self).handles(),
            final(self).sessions() == without_id(old(self).sessions(), net_id),
    {
        let mut kept: Vec<Session> = Vec::new();
        let mut at: usize = 0;
        assert(self.sessions@.take(0) =~= Seq::empty());
        while at < self.sessions.len()
            invariant
                *self == *old(self),
                self.wf(),
                at <= self.sessions@.len(),
                kept@ == without_id(self.sessions@.take(at as int), net_id),
                forall|k: int|
                    0 <= k < kept@.len() ==> (#[trigger] kept@[k]).net_id != net_id && exists|
                        i: int,
                    |
                        0 <= i < at && self.sessions@[i] == kept@[k],
                forall|k: int, l: int|
                    0 <= k < kept@.len() && 0 <= l < kept@.len() && #[trigger] kept@[k].addr
                        == #[trigger] kept@[l].addr ==> k == l,
            decreases self.sessions.len() - at,
        {
            let session: Session = self.sessions[at];
            proof {
                let next = self.sessions@.take(at + 1);
                assert(next.drop_last() =~= self.sessions@.take(at as int));
                assert(next.last() == session);
            }
            if session.net_id != net_id {
                kept.push(session);
                assert(self.sessions@[at as int] == kept@[kept@.len() - 1]);
            }
            at = at + 1;
        }
        assert(self.sessions@.take(at as int) =~= self.sessions@);
        self.registry.unbind(net_id);
        self.sessions = kept;
    }
}

} // verus!
