//! The replication context: session membership, identity allocation, outbound
//! message staging, the instantiation resolver and the per-tick dispatcher.
//!
//! The transport and session directory are external collaborators. They feed
//! completions and datagrams in through the channel bridge or
//! [`SteamP2PClient::receive_packet`], and they drain the staged
//! [`OutboundMessage`]s, lobby requests and application events after each
//! tick. Everything between those edges is verified.

use vstd::prelude::*;

use crate::codec::enc_data;
use crate::codec::encode_network_data;
use crate::networked_transform::lerp_quat;
use crate::networked_transform::lerp_vec3;
use crate::networked_transform::NetworkedTransform;
use crate::networked_transform::Transform;
use crate::networked_transform::TransformUpdate;
use crate::FilePath;
use crate::InstantiationData;
use crate::LobbyId;
use crate::LobbyJoined;
use crate::LobbyLeft;
use crate::NetworkData;
use crate::NetworkIdentity;
use crate::NetworkId;
use crate::NetworkPacket;
use crate::NetworkedAction;
use crate::OtherJoined;
use crate::SendFlags;
use crate::SteamId;
use crate::UnhandledInstantiation;

verus! {

/// Session membership status of the local peer.
#[derive(PartialEq, Eq, Structural, Clone, Copy, Debug)]
pub enum LobbyStatus {
    InLobby(LobbyId),
    OutOfLobby,
}

/// What the async-to-tick bridge carries: session completions detected by the
/// transport thread, and raw inbound packets.
pub enum ChannelPacket {
    /// A create or join acknowledgment: the lobby, its owner, its members.
    LobbyJoined(LobbyId, SteamId, Vec<SteamId>),
    LobbyLeft,
    NetworkPacket(NetworkPacket),
}

/// Both ends of the async-to-tick bridge. The sender side may be cloned and
/// handed to transport callbacks on other threads.
pub struct SteamBevyChannel {
    pub tx: flume::Sender<ChannelPacket>,
    pub rx: flume::Receiver<ChannelPacket>,
}

/// Relies on `flume::unbounded`: a fresh connected channel pair.
#[verifier::external_body]
fn channel_new() -> SteamBevyChannel {
    let (tx, rx) = flume::unbounded();
    SteamBevyChannel { tx, rx }
}

/// Relies on `flume::Sender::send`: on an unbounded channel the message is
/// queued; it fails only when every receiver is gone.
#[verifier::external_body]
fn channel_send(tx: &flume::Sender<ChannelPacket>, packet: ChannelPacket) -> (ok: bool) {
    tx.send(packet).is_ok()
}

/// Relies on `flume::Receiver::try_recv`: pops one queued message, if any.
#[verifier::external_body]
fn channel_try_recv(rx: &flume::Receiver<ChannelPacket>) -> (r: Option<ChannelPacket>) {
    rx.try_recv().ok()
}

/// Relies on `flume::Sender::clone`: another handle to the same channel.
#[verifier::external_body]
fn channel_sender_clone(tx: &flume::Sender<ChannelPacket>) -> (r: flume::Sender<ChannelPacket>) {
    tx.clone()
}

/// A session-directory operation the application must perform on the
/// client's behalf.
#[derive(PartialEq, Eq, Structural, Clone, Copy, Debug)]
pub enum LobbyRequest {
    CreateLobby(u32),
    JoinLobby(LobbyId),
    LeaveLobby(LobbyId),
}

/// One staged datagram: which peer it goes to, the encoded envelope, and the
/// reliability hint for the transport.
#[derive(Debug)]
pub struct OutboundMessage {
    pub target: SteamId,
    pub payload: Vec<u8>,
    pub flags: SendFlags,
}

/// Locally observable effects of a tick, in order of occurrence; the
/// application mirrors them onto its scene and event streams.
#[derive(Debug)]
pub enum AppEvent {
    LobbyJoined(LobbyJoined),
    LobbyLeft(LobbyLeft),
    OtherJoined(OtherJoined),
    NetworkedAction(NetworkedAction),
    UnhandledInstantiation(UnhandledInstantiation),
    /// A registered application event was delivered: its registry type key
    /// and its still-serialized payload.
    Event(u64, Vec<u8>),
    DebugMessage(String),
    /// The factory must materialize this object now.
    Materialized(InstantiationData),
    /// The factory must destroy the object with this identity now.
    Destroyed(NetworkIdentity),
}

/// One locally materialized replicated object.
#[derive(Debug)]
pub struct NetworkedObject {
    pub identity: NetworkIdentity,
    pub transform: Transform,
    pub networked_transform: NetworkedTransform,
}

pub open spec fn has_object_id(objs: Seq<NetworkedObject>, id: NetworkId) -> bool {
    exists|i: int| 0 <= i < objs.len() && (#[trigger] objs[i]).identity.id == id
}

pub open spec fn distinct_object_ids(objs: Seq<NetworkedObject>) -> bool {
    forall|i: int, j: int|
        #![trigger objs[i], objs[j]]
        0 <= i < j < objs.len() ==> objs[i].identity.id != objs[j].identity.id
}

pub open spec fn path_registered(paths: Seq<FilePath>, path: Seq<char>) -> bool {
    exists|i: int| 0 <= i < paths.len() && (#[trigger] paths[i])@ == path
}

/// The replication context. One per process; every replication operation goes
/// through it, and the application drains its request and event queues each
/// tick.
pub struct SteamP2PClient {
    /// The local peer, as the transport identifies it.
    pub id: SteamId,
    pub lobby_status: LobbyStatus,
    /// The session host, known while in a lobby.
    pub lobby_owner: Option<SteamId>,
    /// Current lobby members, the local peer included.
    pub lobby_members: Vec<SteamId>,
    /// The async-to-tick bridge.
    pub steam_bevy_channel: SteamBevyChannel,
    /// Next per-owner object index to hand out.
    pub instantiation_id: u32,
    /// Every index this client has handed out, in allocation order.
    pub allocated: Ghost<Seq<u32>>,
    /// Instantiations whose parent has not arrived yet.
    pub queued_instantiations: Vec<InstantiationData>,
    /// The locally materialized replicated objects.
    pub objects: Vec<NetworkedObject>,
    /// Factory paths the application can materialize.
    pub registered_paths: Vec<FilePath>,
    /// Decoded envelopes waiting for dispatch.
    pub inbound_packets: Vec<NetworkPacket>,
    /// Pose samples routed by the dispatcher, drained by reconciliation.
    pub transform_updates: Vec<TransformUpdate>,
    /// Instantiate requests routed by the dispatcher, drained by the resolver.
    pub instantiation_inbox: Vec<InstantiationData>,
    /// Directory operations for the application to perform.
    pub lobby_requests: Vec<LobbyRequest>,
    /// Encoded datagrams for the transport to send.
    pub outbound: Vec<OutboundMessage>,
    /// Effects for the application to observe, in order.
    pub app_events: Vec<AppEvent>,
}

impl SteamP2PClient {
    /// Internal consistency: allocation indices are strictly increasing and
    /// below the counter, no two live objects share an id, lobby owner
    /// knowledge coincides with membership, and queued instantiations all
    /// wait on some parent.
    pub open spec fn wf(&self) -> bool {
        &&& forall|i: int, j: int|
            #![trigger self.allocated@[i], self.allocated@[j]]
            0 <= i < j < self.allocated@.len() ==> self.allocated@[i] < self.allocated@[j]
        &&& forall|i: int|
            0 <= i < self.allocated@.len() ==> #[trigger] self.allocated@[i]
                < self.instantiation_id
        &&& distinct_object_ids(self.objects@)
        &&& (self.lobby_status is InLobby <==> self.lobby_owner is Some)
        &&& forall|i: int|
            0 <= i < self.queued_instantiations@.len() ==> (#[trigger] self.queued_instantiations@[i]).network_identity.parent_id
                is Some
    }

    /// Session-side state that a method leaves untouched.
    pub open spec fn same_session(a: Self, b: Self) -> bool {
        &&& a.id == b.id
        &&& a.lobby_status == b.lobby_status
        &&& a.lobby_owner == b.lobby_owner
        &&& a.lobby_members@ == b.lobby_members@
        &&& a.steam_bevy_channel == b.steam_bevy_channel
    }

    /// Replication-side state that a method leaves untouched.
    pub open spec fn same_replication(a: Self, b: Self) -> bool {
        &&& a.instantiation_id == b.instantiation_id
        &&& a.allocated@ == b.allocated@
        &&& a.queued_instantiations@ == b.queued_instantiations@
        &&& a.objects@ == b.objects@
        &&& a.registered_paths@ == b.registered_paths@
    }

    /// Inbox state that a method leaves untouched.
    pub open spec fn same_inboxes(a: Self, b: Self) -> bool {
        &&& a.inbound_packets@ == b.inbound_packets@
        &&& a.transform_updates@ == b.transform_updates@
        &&& a.instantiation_inbox@ == b.instantiation_inbox@
    }

    /// A fresh client for the given transport identity: out of any lobby,
    /// no objects, no allocations, every queue empty.
    pub fn new(id: SteamId) -> (r: SteamP2PClient)
        ensures
            r.wf(),
            r.id == id,
            r.lobby_status is OutOfLobby,
            r.lobby_owner is None,
            r.lobby_members@.len() == 0,
            r.instantiation_id == 0,
            r.allocated@.len() == 0,
            r.queued_instantiations@.len() == 0,
            r.objects@.len() == 0,
            r.registered_paths@.len() == 0,
            r.inbound_packets@.len() == 0,
            r.transform_updates@.len() == 0,
            r.instantiation_inbox@.len() == 0,
            r.lobby_requests@.len() == 0,
            r.outbound@.len() == 0,
            r.app_events@.len() == 0,
    {
        SteamP2PClient {
            id,
            lobby_status: LobbyStatus::OutOfLobby,
            lobby_owner: None,
            lobby_members: Vec::new(),
            steam_bevy_channel: channel_new(),
            instantiation_id: 0,
            allocated: Ghost(Seq::empty()),
            queued_instantiations: Vec::new(),
            objects: Vec::new(),
            registered_paths: Vec::new(),
            inbound_packets: Vec::new(),
            transform_updates: Vec::new(),
            instantiation_inbox: Vec::new(),
            lobby_requests: Vec::new(),
            outbound: Vec::new(),
            app_events: Vec::new(),
        }
    }

    /// A sender handle for transport callbacks running on other threads.
    pub fn sender(&self) -> flume::Sender<ChannelPacket> {
        channel_sender_clone(&self.steam_bevy_channel.tx)
    }

    pub fn is_in_lobby(&self) -> (r: bool)
        ensures
            r == (self.lobby_status is InLobby),
    {
        match self.lobby_status {
            LobbyStatus::InLobby(_) => true,
            LobbyStatus::OutOfLobby => false,
        }
    }

    pub fn get_lobby_id(&self) -> (r: Result<LobbyId, String>)
        ensures
            self.lobby_status matches LobbyStatus::InLobby(lobby) ==> r == Ok::<LobbyId, String>(
                lobby,
            ),
            self.lobby_status is OutOfLobby ==> r is Err,
    {
        match self.lobby_status {
            LobbyStatus::InLobby(lobby_id) => Ok(lobby_id),
            LobbyStatus::OutOfLobby => Err("Out of lobby".to_owned()),
        }
    }

    pub fn get_lobby_owner(&self) -> (r: Result<SteamId, String>)
        requires
            self.wf(),
        ensures
            self.lobby_status is InLobby ==> (r matches Ok(owner) && Some(owner)
                == self.lobby_owner),
            self.lobby_status is OutOfLobby ==> r is Err,
    {
        match self.lobby_status {
            LobbyStatus::InLobby(_) => match self.lobby_owner {
                Some(owner) => Ok(owner),
                None => Err("Out of lobby".to_owned()),
            },
            LobbyStatus::OutOfLobby => Err("Out of lobby".to_owned()),
        }
    }

    pub fn is_lobby_owner(&self) -> (r: Result<bool, String>)
        requires
            self.wf(),
        ensures
            self.lobby_status is InLobby ==> r == Ok::<bool, String>(
                self.lobby_owner == Some(self.id),
            ),
            self.lobby_status is OutOfLobby ==> r is Err,
    {
        match self.get_lobby_owner() {
            Ok(owner) => Ok(owner == self.id),
            Err(e) => Err(e),
        }
    }

    /// Hand out the next per-owner object index; each one is returned once.
    pub fn get_new_instantiation_id(&mut self) -> (id: u32)
        requires
            old(self).wf(),
            old(self).instantiation_id < u32::MAX,
        ensures
            final(self).wf(),
            id == old(self).instantiation_id,
            final(self).instantiation_id == old(self).instantiation_id + 1,
            final(self).allocated@ == old(self).allocated@.push(id),
            Self::same_session(*old(self), *final(self)),
            Self::same_inboxes(*old(self), *final(self)),
            final(self).queued_instantiations@ == old(self).queued_instantiations@,
            final(self).objects@ == old(self).objects@,
            final(self).registered_paths@ == old(self).registered_paths@,
            final(self).lobby_requests@ == old(self).lobby_requests@,
            final(self).outbound@ == old(self).outbound@,
            final(self).app_events@ == old(self).app_events@,
    {
        let id = self.instantiation_id;
        self.instantiation_id = self.instantiation_id + 1;
        proof {
            let ghost previous = self.allocated@;
            assert(forall|i: int| 0 <= i < previous.len() ==> #[trigger] previous[i] < id);
        }
        self.allocated = Ghost(self.allocated@.push(id));
        id
    }

    /// Build the identity for a newly spawned object owned by this peer.
    pub fn generate_new_network_identity(
        &mut self,
        path: FilePath,
        parent_id: Option<NetworkId>,
    ) -> (r: NetworkIdentity)
        requires
            old(self).wf(),
            old(self).instantiation_id < u32::MAX,
        ensures
            final(self).wf(),
            r == (NetworkIdentity {
                id: NetworkId { owner: old(self).id, index: old(self).instantiation_id },
                parent_id,
                instantiation_path: path,
            }),
            final(self).instantiation_id == old(self).instantiation_id + 1,
            final(self).allocated@ == old(self).allocated@.push(old(self).instantiation_id),
            Self::same_session(*old(self), *final(self)),
            Self::same_inboxes(*old(self), *final(self)),
            final(self).queued_instantiations@ == old(self).queued_instantiations@,
            final(self).objects@ == old(self).objects@,
            final(self).registered_paths@ == old(self).registered_paths@,
            final(self).lobby_requests@ == old(self).lobby_requests@,
            final(self).outbound@ == old(self).outbound@,
            final(self).app_events@ == old(self).app_events@,
    {
        let index = self.get_new_instantiation_id();
        NetworkIdentity {
            id: NetworkId { owner: self.id, index },
            parent_id,
            instantiation_path: path,
        }
    }

    /// Defer an instantiation until its parent appears.
    pub fn add_to_instantiation_queue(&mut self, instantiation_data: InstantiationData)
        requires
            old(self).wf(),
            instantiation_data.network_identity.parent_id is Some,
        ensures
            final(self).wf(),
            final(self).queued_instantiations@ == old(self).queued_instantiations@.push(
                instantiation_data,
            ),
            Self::same_session(*old(self), *final(self)),
            Self::same_inboxes(*old(self), *final(self)),
            final(self).instantiation_id == old(self).instantiation_id,
            final(self).allocated@ == old(self).allocated@,
            final(self).objects@ == old(self).objects@,
            final(self).registered_paths@ == old(self).registered_paths@,
            final(self).lobby_requests@ == old(self).lobby_requests@,
            final(self).outbound@ == old(self).outbound@,
            final(self).app_events@ == old(self).app_events@,
    {
        self.queued_instantiations.push(instantiation_data);
    }

    /// The instantiations still waiting on a parent, in arrival order.
    pub fn get_instantiation_queue(&self) -> (r: &Vec<InstantiationData>)
        ensures
            r@ == self.queued_instantiations@,
    {
        &self.queued_instantiations
    }

    /// Register a factory path the application knows how to materialize.
    pub fn register_path(&mut self, path: FilePath)
        requires
            old(self).wf(),
        ensures
            final(self).wf(),
            final(self).registered_paths@ == old(self).registered_paths@.push(path),
            Self::same_session(*old(self), *final(self)),
            Self::same_inboxes(*old(self), *final(self)),
            final(self).instantiation_id == old(self).instantiation_id,
            final(self).allocated@ == old(self).allocated@,
            final(self).queued_instantiations@ == old(self).queued_instantiations@,
            final(self).objects@ == old(self).objects@,
            final(self).lobby_requests@ == old(self).lobby_requests@,
            final(self).outbound@ == old(self).outbound@,
            final(self).app_events@ == old(self).app_events@,
    {
        self.registered_paths.push(path);
    }
}

/// `new_ob` extends `old_ob` with exactly one staged datagram.
pub open spec fn sends_one(
    old_ob: Seq<OutboundMessage>,
    new_ob: Seq<OutboundMessage>,
    target: SteamId,
    payload: Seq<u8>,
    flags: SendFlags,
) -> bool {
    &&& new_ob.len() == old_ob.len() + 1
    &&& new_ob.take(old_ob.len() as int) == old_ob
    &&& new_ob.last().target == target
    &&& new_ob.last().payload@ == payload
    &&& new_ob.last().flags == flags
}

/// The members other than `me`, in membership order.
pub open spec fn others_of(members: Seq<SteamId>, me: SteamId) -> Seq<SteamId>
    decreases members.len(),
{
    if members.len() == 0 {
        Seq::empty()
    } else {
        let rest = others_of(members.drop_last(), me);
        if members.last() == me {
            rest
        } else {
            rest.push(members.last())
        }
    }
}

/// `new_ob` extends `old_ob` with one identical payload per target, in
/// target order.
pub open spec fn sends_to_each(
    old_ob: Seq<OutboundMessage>,
    new_ob: Seq<OutboundMessage>,
    targets: Seq<SteamId>,
    payload: Seq<u8>,
    flags: SendFlags,
) -> bool {
    &&& new_ob.len() == old_ob.len() + targets.len()
    &&& new_ob.take(old_ob.len() as int) == old_ob
    &&& forall|k: int|
        0 <= k < targets.len() ==> {
            let m = #[trigger] new_ob[old_ob.len() + k];
            m.target == targets[k] && m.payload@ == payload && m.flags == flags
        }
}

impl SteamP2PClient {
    /// Encode `data` once and stage it for `target`. The one serialization
    /// point of the outbound path; fails exactly when out of a lobby.
    pub fn send_message(&mut self, data: &NetworkData, target: SteamId, flags: SendFlags) -> (r:
        Result<(), String>)
        requires
            old(self).wf(),
        ensures
            final(self).wf(),
            Self::same_session(*old(self), *final(self)),
            Self::same_replication(*old(self), *final(self)),
            Self::same_inboxes(*old(self), *final(self)),
            final(self).lobby_requests@ == old(self).lobby_requests@,
            final(self).app_events@ == old(self).app_events@,
            old(self).lobby_status is InLobby ==> (r is Ok && sends_one(
                old(self).outbound@,
                final(self).outbound@,
                target,
                enc_data(data@),
                flags,
            )),
            old(self).lobby_status is OutOfLobby ==> (r is Err && final(self).outbound@ == old(
                self,
            ).outbound@),
            r matches Err(e) ==> e@ == "Not in a lobby"@,
    {
        if !self.is_in_lobby() {
            return Err("Not in a lobby".to_owned());
        }
        let payload = encode_network_data(data);
        let ghost previous = self.outbound@;
        self.outbound.push(OutboundMessage { target, payload, flags });
        proof {
            assert(self.outbound@.take(previous.len() as int) =~= previous);
        }
        Ok(())
    }

    /// Stage one copy of `data` for every other lobby member, in membership
    /// order; fails exactly when out of a lobby.
    pub fn send_message_others(&mut self, data: NetworkData, flags: SendFlags) -> (r: Result<
        (),
        String,
    >)
        requires
            old(self).wf(),
        ensures
            final(self).wf(),
            Self::same_session(*old(self), *final(self)),
            Self::same_replication(*old(self), *final(self)),
            Self::same_inboxes(*old(self), *final(self)),
            final(self).lobby_requests@ == old(self).lobby_requests@,
            final(self).app_events@ == old(self).app_events@,
            old(self).lobby_status is InLobby ==> (r is Ok && sends_to_each(
                old(self).outbound@,
                final(self).outbound@,
                others_of(old(self).lobby_members@, old(self).id),
                enc_data(data@),
                flags,
            )),
            old(self).lobby_status is OutOfLobby ==> (r is Err && final(self).outbound@ == old(
                self,
            ).outbound@),
    {
        if !self.is_in_lobby() {
            return Err("Out of lobby".to_owned());
        }
        let payload = encode_network_data(&data);
        let ghost old_ob = self.outbound@;
        let ghost members = self.lobby_members@;
        let me = self.id;
        let n = self.lobby_members.len();
        let mut i: usize = 0;
        proof {
            assert(members.take(0) =~= Seq::<SteamId>::empty());
            assert(self.outbound@.take(old_ob.len() as int) =~= old_ob);
        }
        while i < n
            invariant
                self.wf(),
                i <= n,
                n == members.len(),
                me == self.id,
                payload@ == enc_data(data@),
                self.lobby_members@ == members,
                sends_to_each(old_ob, self.outbound@, others_of(members.take(i as int), me), payload@, flags),
                Self::same_session(*old(self), *self),
                Self::same_replication(*old(self), *self),
                Self::same_inboxes(*old(self), *self),
                self.lobby_requests@ == old(self).lobby_requests@,
                self.app_events@ == old(self).app_events@,
                old_ob == old(self).outbound@,
            decreases n - i,
        {
            let player = self.lobby_members[i];
            proof {
                assert(members.take(i as int + 1).drop_last() =~= members.take(i as int));
            }
            if player != me {
                self.outbound.push(
                    OutboundMessage { target: player, payload: payload.clone(), flags },
                );
                proof {
                    let targets = others_of(members.take(i as int + 1), me);
                    assert(self.outbound@.take(old_ob.len() as int) =~= old_ob);
                }
            }
            i = i + 1;
        }
        proof {
            assert(members.take(n as int) =~= members);
        }
        Ok(())
    }

    /// Deliver `data` locally through the bridge (so the local peer observes
    /// it like any other member) and stage it for every other member.
    pub fn send_message_all(&mut self, data: NetworkData, flags: SendFlags) -> (r: Result<
        (),
        String,
    >)
        requires
            old(self).wf(),
        ensures
            final(self).wf(),
            Self::same_session(*old(self), *final(self)),
            Self::same_replication(*old(self), *final(self)),
            Self::same_inboxes(*old(self), *final(self)),
            final(self).lobby_requests@ == old(self).lobby_requests@,
            final(self).app_events@ == old(self).app_events@,
            old(self).lobby_status is InLobby ==> (r is Ok && sends_to_each(
                old(self).outbound@,
                final(self).outbound@,
                others_of(old(self).lobby_members@, old(self).id),
                enc_data(data@),
                flags,
            )),
            old(self).lobby_status is OutOfLobby ==> (r is Err && final(self).outbound@ == old(
                self,
            ).outbound@),
    {
        let echo = ChannelPacket::NetworkPacket(
            NetworkPacket { data: data.clone(), sender: self.id },
        );
        let _delivered = channel_send(&self.steam_bevy_channel.tx, echo);
        self.send_message_others(data, flags)
    }

    /// Stage `data` for the lobby owner; fails exactly when out of a lobby.
    pub fn send_to_owner(&mut self, data: &NetworkData, flags: SendFlags) -> (r: Result<
        (),
        String,
    >)
        requires
            old(self).wf(),
        ensures
            final(self).wf(),
            Self::same_session(*old(self), *final(self)),
            Self::same_replication(*old(self), *final(self)),
            Self::same_inboxes(*old(self), *final(self)),
            final(self).lobby_requests@ == old(self).lobby_requests@,
            final(self).app_events@ == old(self).app_events@,
            old(self).lobby_status is InLobby ==> (r is Ok && sends_one(
                old(self).outbound@,
                final(self).outbound@,
                old(self).lobby_owner->0,
                enc_data(data@),
                flags,
            )),
            old(self).lobby_status is OutOfLobby ==> (r is Err && final(self).outbound@ == old(
                self,
            ).outbound@),
    {
        if !self.is_in_lobby() {
            return Err("Not in a lobby".to_owned());
        }
        let owner = match self.get_lobby_owner() {
            Ok(owner) => owner,
            Err(e) => {
                return Err(e);
            },
        };
        self.send_message(data, owner, flags)
    }
}

impl SteamP2PClient {
    /// Ask the directory to create a lobby. A no-op while already in one;
    /// the acknowledgment arrives later through the channel bridge.
    pub fn create_lobby(&mut self, max_players: u32)
        requires
            old(self).wf(),
        ensures
            final(self).wf(),
            Self::same_session(*old(self), *final(self)),
            Self::same_replication(*old(self), *final(self)),
            Self::same_inboxes(*old(self), *final(self)),
            final(self).outbound@ == old(self).outbound@,
            final(self).app_events@ == old(self).app_events@,
            old(self).lobby_status is OutOfLobby ==> final(self).lobby_requests@ == old(
                self,
            ).lobby_requests@.push(LobbyRequest::CreateLobby(max_players)),
            old(self).lobby_status is InLobby ==> final(self).lobby_requests@ == old(
                self,
            ).lobby_requests@,
    {
        if self.is_in_lobby() {
            return ;
        }
        self.lobby_requests.push(LobbyRequest::CreateLobby(max_players));
    }

    /// Ask the directory to join `lobby_id`. A no-op while already in a
    /// lobby; the acknowledgment arrives later through the channel bridge.
    pub fn join_lobby(&mut self, lobby_id: LobbyId)
        requires
            old(self).wf(),
        ensures
            final(self).wf(),
            Self::same_session(*old(self), *final(self)),
            Self::same_replication(*old(self), *final(self)),
            Self::same_inboxes(*old(self), *final(self)),
            final(self).outbound@ == old(self).outbound@,
            final(self).app_events@ == old(self).app_events@,
            old(self).lobby_status is OutOfLobby ==> final(self).lobby_requests@ == old(
                self,
            ).lobby_requests@.push(LobbyRequest::JoinLobby(lobby_id)),
            old(self).lobby_status is InLobby ==> final(self).lobby_requests@ == old(
                self,
            ).lobby_requests@,
    {
        if self.is_in_lobby() {
            return ;
        }
        self.lobby_requests.push(LobbyRequest::JoinLobby(lobby_id));
    }

    /// Leave the current lobby: immediate and local. Membership state clears
    /// now; the object teardown rides through the bridge so it happens at the
    /// same point of the tick as every other teardown.
    pub fn leave_lobby(&mut self)
        requires
            old(self).wf(),
        ensures
            final(self).wf(),
            Self::same_replication(*old(self), *final(self)),
            Self::same_inboxes(*old(self), *final(self)),
            final(self).outbound@ == old(self).outbound@,
            final(self).app_events@ == old(self).app_events@,
            final(self).id == old(self).id,
            old(self).lobby_status matches LobbyStatus::InLobby(lobby) ==> {
                &&& final(self).lobby_status is OutOfLobby
                &&& final(self).lobby_owner is None
                &&& final(self).lobby_members@.len() == 0
                &&& final(self).lobby_requests@ == old(self).lobby_requests@.push(
                    LobbyRequest::LeaveLobby(lobby),
                )
            },
            old(self).lobby_status is OutOfLobby ==> (Self::same_session(
                *old(self),
                *final(self),
            ) && final(self).lobby_requests@ == old(self).lobby_requests@),
    {
        let lobby = match self.lobby_status {
            LobbyStatus::InLobby(lobby) => lobby,
            LobbyStatus::OutOfLobby => {
                return ;
            },
        };
        self.lobby_status = LobbyStatus::OutOfLobby;
        self.lobby_owner = None;
        self.lobby_members = Vec::new();
        self.lobby_requests.push(LobbyRequest::LeaveLobby(lobby));
        let _delivered = channel_send(&self.steam_bevy_channel.tx, ChannelPacket::LobbyLeft);
    }

    /// Apply one message from the async-to-tick bridge: a join acknowledgment
    /// enters the lobby, announces the local peer to the other members and
    /// surfaces `LobbyJoined`; a leave tears every replicated object down;
    /// a packet joins the dispatch inbox.
    pub fn apply_channel_packet(&mut self, packet: ChannelPacket)
        requires
            old(self).wf(),
        ensures
            final(self).wf(),
            final(self).id == old(self).id,
            final(self).instantiation_id == old(self).instantiation_id,
            final(self).allocated@ == old(self).allocated@,
            final(self).queued_instantiations@ == old(self).queued_instantiations@,
            final(self).registered_paths@ == old(self).registered_paths@,
            final(self).transform_updates@ == old(self).transform_updates@,
            final(self).instantiation_inbox@ == old(self).instantiation_inbox@,
            final(self).lobby_requests@ == old(self).lobby_requests@,
            packet matches ChannelPacket::LobbyJoined(lobby, owner, members) ==> {
                &&& final(self).lobby_status == LobbyStatus::InLobby(lobby)
                &&& final(self).lobby_owner == Some(owner)
                &&& final(self).lobby_members@ == members@
                &&& final(self).objects@ == old(self).objects@
                &&& final(self).inbound_packets@ == old(self).inbound_packets@
                &&& final(self).app_events@ == old(self).app_events@.push(
                    AppEvent::LobbyJoined(LobbyJoined { lobby_id: lobby }),
                )
                &&& sends_to_each(
                    old(self).outbound@,
                    final(self).outbound@,
                    others_of(members@, old(self).id),
                    enc_data(crate::NetworkDataView::OtherJoined(old(self).id)),
                    SendFlags::Reliable,
                )
            },
            packet is LobbyLeft ==> {
                &&& Self::same_session(*old(self), *final(self))
                &&& final(self).objects@.len() == 0
                &&& final(self).inbound_packets@ == old(self).inbound_packets@
                &&& final(self).outbound@ == old(self).outbound@
                &&& final(self).app_events@ == old(self).app_events@.push(
                    AppEvent::LobbyLeft(LobbyLeft),
                )
            },
            packet matches ChannelPacket::NetworkPacket(p) ==> {
                &&& Self::same_session(*old(self), *final(self))
                &&& final(self).objects@ == old(self).objects@
                &&& final(self).inbound_packets@ == old(self).inbound_packets@.push(p)
                &&& final(self).outbound@ == old(self).outbound@
                &&& final(self).app_events@ == old(self).app_events@
            },
    {
        match packet {
            ChannelPacket::LobbyJoined(lobby, owner, members) => {
                self.lobby_status = LobbyStatus::InLobby(lobby);
                self.lobby_owner = Some(owner);
                self.lobby_members = members;
                self.app_events.push(AppEvent::LobbyJoined(LobbyJoined { lobby_id: lobby }));
                let announce = NetworkData::OtherJoined(self.id);
                let _sent = self.send_message_others(announce, SendFlags::Reliable);
            },
            ChannelPacket::LobbyLeft => {
                self.objects.clear();
                self.app_events.push(AppEvent::LobbyLeft(LobbyLeft));
            },
            ChannelPacket::NetworkPacket(p) => {
                self.inbound_packets.push(p);
            },
        }
    }

    /// Session-side and bridge-independent state that one channel drain can
    /// change only as [`Self::apply_channel_packet`] allows: the replication
    /// inputs are untouched, the observable queues only grow, and the object
    /// store survives unless a leave tears it down.
    pub open spec fn channels_step(pre: Self, post: Self) -> bool {
        &&& post.wf()
        &&& post.id == pre.id
        &&& post.instantiation_id == pre.instantiation_id
        &&& post.allocated@ == pre.allocated@
        &&& post.queued_instantiations@ == pre.queued_instantiations@
        &&& post.registered_paths@ == pre.registered_paths@
        &&& post.transform_updates@ == pre.transform_updates@
        &&& post.instantiation_inbox@ == pre.instantiation_inbox@
        &&& post.lobby_requests@ == pre.lobby_requests@
        &&& pre.app_events@.is_prefix_of(post.app_events@)
        &&& pre.outbound@.is_prefix_of(post.outbound@)
        &&& pre.inbound_packets@.is_prefix_of(post.inbound_packets@)
        &&& (post.objects@ == pre.objects@ || post.objects@.len() == 0)
    }

    /// Drain the bridge completely: pull messages until none is queued and
    /// apply each in arrival order, so everything queued at tick start is
    /// processed this tick. The exact per-message effect is
    /// [`Self::apply_channel_packet`]'s contract; what any drain leaves
    /// intact is [`Self::channels_step`].
    pub fn handle_channels(&mut self)
        requires
            old(self).wf(),
        ensures
            Self::channels_step(*old(self), *final(self)),
    {
        proof {
            assert(old(self).app_events@.is_prefix_of(old(self).app_events@));
            assert(old(self).outbound@.is_prefix_of(old(self).outbound@));
            assert(old(self).inbound_packets@.is_prefix_of(old(self).inbound_packets@));
        }
        // a senders-alive channel cannot be proved to run dry, so the drain
        // carries a budget far beyond any realistic queue depth and stops
        // early on the first empty poll
        let mut budget: u64 = u64::MAX;
        while budget > 0
            invariant
                Self::channels_step(*old(self), *self),
            decreases budget,
        {
            match channel_try_recv(&self.steam_bevy_channel.rx) {
                Some(packet) => {
                    let ghost mid = *self;
                    self.apply_channel_packet(packet);
                    proof {
                        assert(mid.app_events@.is_prefix_of(self.app_events@));
                        assert(mid.outbound@.is_prefix_of(self.outbound@));
                        assert(mid.inbound_packets@.is_prefix_of(self.inbound_packets@));
                        assert(old(self).app_events@.is_prefix_of(self.app_events@));
                        assert(old(self).outbound@.is_prefix_of(self.outbound@));
                        assert(old(self).inbound_packets@.is_prefix_of(self.inbound_packets@));
                    }
                },
                None => {
                    break ;
                },
            }
            budget = budget - 1;
        }
    }

    /// Decode one inbound datagram and queue it for dispatch; an undecodable
    /// datagram is dropped, never fatal.
    pub fn receive_packet(&mut self, sender: SteamId, bytes: &Vec<u8>)
        requires
            old(self).wf(),
        ensures
            final(self).wf(),
            Self::same_session(*old(self), *final(self)),
            Self::same_replication(*old(self), *final(self)),
            final(self).transform_updates@ == old(self).transform_updates@,
            final(self).instantiation_inbox@ == old(self).instantiation_inbox@,
            final(self).lobby_requests@ == old(self).lobby_requests@,
            final(self).outbound@ == old(self).outbound@,
            final(self).app_events@ == old(self).app_events@,
            crate::codec::dec_data(bytes@) matches Some(p) ==> {
                &&& final(self).inbound_packets@.len() == old(self).inbound_packets@.len() + 1
                &&& final(self).inbound_packets@.take(old(self).inbound_packets@.len() as int)
                    == old(self).inbound_packets@
                &&& final(self).inbound_packets@.last().sender == sender
                &&& final(self).inbound_packets@.last().data@ == p.0
            },
            crate::codec::dec_data(bytes@) is None ==> final(self).inbound_packets@ == old(
                self,
            ).inbound_packets@,
    {
        match crate::codec::decode_network_data(bytes) {
            Some(data) => {
                let ghost previous = self.inbound_packets@;
                self.inbound_packets.push(NetworkPacket { data, sender });
                proof {
                    assert(self.inbound_packets@.take(previous.len() as int) =~= previous);
                }
            },
            None => {},
        }
    }

    /// Allocate an identity for a new object owned by this peer and announce
    /// its instantiation to every member, the local peer included (through
    /// the bridge echo), so the owner materializes through the same path as
    /// everyone else.
    pub fn instantiate(
        &mut self,
        path: FilePath,
        parent_id: Option<NetworkId>,
        starting_transform: Transform,
    ) -> (r: Result<NetworkIdentity, String>)
        requires
            old(self).wf(),
            old(self).lobby_status is InLobby ==> old(self).instantiation_id < u32::MAX,
        ensures
            final(self).wf(),
            Self::same_inboxes(*old(self), *final(self)),
            Self::same_session(*old(self), *final(self)),
            final(self).queued_instantiations@ == old(self).queued_instantiations@,
            final(self).objects@ == old(self).objects@,
            final(self).registered_paths@ == old(self).registered_paths@,
            final(self).lobby_requests@ == old(self).lobby_requests@,
            final(self).app_events@ == old(self).app_events@,
            old(self).lobby_status is OutOfLobby ==> {
                &&& r is Err
                &&& final(self).outbound@ == old(self).outbound@
                &&& final(self).instantiation_id == old(self).instantiation_id
                &&& final(self).allocated@ == old(self).allocated@
            },
            old(self).lobby_status is InLobby ==> {
                let identity = crate::NetworkIdentityView {
                    id: NetworkId { owner: old(self).id, index: old(self).instantiation_id },
                    parent_id,
                    instantiation_path: path@,
                };
                &&& r matches Ok(given) && given@ == identity
                &&& final(self).instantiation_id == old(self).instantiation_id + 1
                &&& final(self).allocated@ == old(self).allocated@.push(
                    old(self).instantiation_id,
                )
                &&& sends_to_each(
                    old(self).outbound@,
                    final(self).outbound@,
                    others_of(old(self).lobby_members@, old(self).id),
                    enc_data(
                        crate::NetworkDataView::Instantiate(
                            crate::InstantiationDataView {
                                network_identity: identity,
                                starting_transform,
                            },
                        ),
                    ),
                    SendFlags::Reliable,
                )
            },
    {
        if !self.is_in_lobby() {
            return Err("Not in a lobby".to_owned());
        }
        let network_identity = self.generate_new_network_identity(path, parent_id);
        let given = network_identity.clone();
        let data = NetworkData::Instantiate(
            InstantiationData { network_identity, starting_transform },
        );
        let _sent = self.send_message_all(data, SendFlags::Reliable);
        Ok(given)
    }
}

/// The state the instantiation resolver reads and writes.
#[verifier::ext_equal]
pub struct ResolveImage {
    pub objects: Seq<NetworkedObject>,
    pub queued: Seq<InstantiationData>,
    pub app_events: Seq<AppEvent>,
}

pub open spec fn resolve_image(c: SteamP2PClient) -> ResolveImage {
    ResolveImage { objects: c.objects@, queued: c.queued_instantiations@, app_events: c.app_events@ }
}

/// The resolver's transition for one `Instantiate` request: a duplicate id
/// changes nothing, a missing parent defers, a registered path materializes,
/// anything else surfaces as unhandled.
pub open spec fn resolve_step(
    s: ResolveImage,
    paths: Seq<FilePath>,
    data: InstantiationData,
) -> ResolveImage {
    if has_object_id(s.objects, data.network_identity.id) {
        s
    } else if data.network_identity.parent_id matches Some(p) && !has_object_id(s.objects, p) {
        ResolveImage { objects: s.objects, queued: s.queued.push(data), app_events: s.app_events }
    } else if path_registered(paths, data.network_identity.instantiation_path@) {
        ResolveImage {
            objects: s.objects.push(
                NetworkedObject {
                    identity: data.network_identity,
                    transform: data.starting_transform,
                    networked_transform: NetworkedTransform::spec_seeded(data.starting_transform),
                },
            ),
            queued: s.queued,
            app_events: s.app_events.push(AppEvent::Materialized(data)),
        }
    } else {
        ResolveImage {
            objects: s.objects,
            queued: s.queued,
            app_events: s.app_events.push(
                AppEvent::UnhandledInstantiation(UnhandledInstantiation(data)),
            ),
        }
    }
}

/// The resolver's transition folded over a whole batch, in arrival order.
pub open spec fn resolve_all(
    s: ResolveImage,
    paths: Seq<FilePath>,
    batch: Seq<InstantiationData>,
) -> ResolveImage
    decreases batch.len(),
{
    if batch.len() == 0 {
        s
    } else {
        resolve_all(resolve_step(s, paths, batch.first()), paths, batch.drop_first())
    }
}

impl SteamP2PClient {
    /// Index of the live object with this id, if any.
    pub fn find_object_index(&self, id: NetworkId) -> (r: Option<usize>)
        ensures
            r matches Some(i) ==> i < self.objects@.len() && self.objects@[i as int].identity.id
                == id && (forall|j: int| 0 <= j < i ==> self.objects@[j].identity.id != id),
            r is None ==> !has_object_id(self.objects@, id),
    {
        let n = self.objects.len();
        let mut i: usize = 0;
        while i < n
            invariant
                i <= n,
                n == self.objects@.len(),
                forall|j: int| 0 <= j < i ==> (#[trigger] self.objects@[j]).identity.id != id,
            decreases n - i,
        {
            if self.objects[i].identity.id == id {
                return Some(i);
            }
            i = i + 1;
        }
        None
    }

    /// Whether the application registered a factory for this path.
    pub fn is_path_registered(&self, path: &FilePath) -> (r: bool)
        ensures
            r == path_registered(self.registered_paths@, path@),
    {
        let n = self.registered_paths.len();
        let mut i: usize = 0;
        while i < n
            invariant
                i <= n,
                n == self.registered_paths@.len(),
                forall|j: int| 0 <= j < i ==> (#[trigger] self.registered_paths@[j])@ != path@,
            decreases n - i,
        {
            if &self.registered_paths[i] == path {
                return true;
            }
            i = i + 1;
        }
        false
    }

    /// Resolve one `Instantiate` request. A duplicate id changes nothing; a
    /// missing parent defers the request; a registered path materializes the
    /// object with its targets seeded from the starting pose; anything else
    /// is surfaced as unhandled.
    pub fn apply_instantiation(&mut self, data: InstantiationData)
        requires
            old(self).wf(),
        ensures
            final(self).wf(),
            Self::same_session(*old(self), *final(self)),
            Self::same_inboxes(*old(self), *final(self)),
            final(self).instantiation_id == old(self).instantiation_id,
            final(self).allocated@ == old(self).allocated@,
            final(self).registered_paths@ == old(self).registered_paths@,
            final(self).lobby_requests@ == old(self).lobby_requests@,
            final(self).outbound@ == old(self).outbound@,
            resolve_image(*final(self)) == resolve_step(
                resolve_image(*old(self)),
                old(self).registered_paths@,
                data,
            ),
            ({
                let objs = old(self).objects@;
                let q = old(self).queued_instantiations@;
                let evs = old(self).app_events@;
                if has_object_id(objs, data.network_identity.id) {
                    &&& final(self).objects@ == objs
                    &&& final(self).queued_instantiations@ == q
                    &&& final(self).app_events@ == evs
                } else if data.network_identity.parent_id matches Some(p) && !has_object_id(
                    objs,
                    p,
                ) {
                    &&& final(self).objects@ == objs
                    &&& final(self).queued_instantiations@ == q.push(data)
                    &&& final(self).app_events@ == evs
                } else if path_registered(
                    old(self).registered_paths@,
                    data.network_identity.instantiation_path@,
                ) {
                    &&& final(self).objects@ == objs.push(
                        NetworkedObject {
                            identity: data.network_identity,
                            transform: data.starting_transform,
                            networked_transform: NetworkedTransform::spec_seeded(
                                data.starting_transform,
                            ),
                        },
                    )
                    &&& final(self).queued_instantiations@ == q
                    &&& final(self).app_events@ == evs.push(AppEvent::Materialized(data))
                } else {
                    &&& final(self).objects@ == objs
                    &&& final(self).queued_instantiations@ == q
                    &&& final(self).app_events@ == evs.push(
                        AppEvent::UnhandledInstantiation(UnhandledInstantiation(data)),
                    )
                }
            }),
    {
        if self.find_object_index(data.network_identity.id).is_some() {
            return ;
        }
        if let Some(p) = data.network_identity.parent_id {
            if self.find_object_index(p).is_none() {
                self.add_to_instantiation_queue(data);
                return ;
            }
        }
        if self.is_path_registered(&data.network_identity.instantiation_path) {
            let ghost objs = self.objects@;
            let obj = NetworkedObject {
                identity: data.network_identity.clone(),
                transform: data.starting_transform,
                networked_transform: NetworkedTransform::seeded(data.starting_transform),
            };
            self.objects.push(obj);
            proof {
                assert forall|i: int, j: int|
                    #![trigger self.objects@[i], self.objects@[j]]
                    0 <= i < j < self.objects@.len() implies self.objects@[i].identity.id
                    != self.objects@[j].identity.id by {
                    if j == self.objects@.len() - 1 {
                        assert(self.objects@[i] == objs[i]);
                    }
                }
            }
            self.app_events.push(AppEvent::Materialized(data));
        } else {
            self.app_events.push(AppEvent::UnhandledInstantiation(UnhandledInstantiation(data)));
        }
    }

    /// The exact effect of one inbox drain: the resolver's transition folded
    /// over every drained request, and nothing else touched.
    pub open spec fn resolve_pass(pre: Self, post: Self) -> bool {
        &&& post.wf()
        &&& Self::same_session(pre, post)
        &&& post.instantiation_inbox@.len() == 0
        &&& post.instantiation_id == pre.instantiation_id
        &&& post.allocated@ == pre.allocated@
        &&& post.registered_paths@ == pre.registered_paths@
        &&& post.lobby_requests@ == pre.lobby_requests@
        &&& post.outbound@ == pre.outbound@
        &&& post.inbound_packets@ == pre.inbound_packets@
        &&& post.transform_updates@ == pre.transform_updates@
        &&& resolve_image(post) == resolve_all(
            resolve_image(pre),
            pre.registered_paths@,
            pre.instantiation_inbox@,
        )
    }

    /// Drain the dispatcher's instantiation inbox through the resolver, in
    /// arrival order: each request is materialized, deferred or surfaced as
    /// [`resolve_step`] says, by [`Self::apply_instantiation`].
    pub fn handle_instantiate(&mut self)
        requires
            old(self).wf(),
        ensures
            Self::resolve_pass(*old(self), *final(self)),
    {
        let ghost inbox0 = self.instantiation_inbox@;
        let ghost paths0 = self.registered_paths@;
        let ghost goal = resolve_all(resolve_image(*self), paths0, inbox0);
        let n = self.instantiation_inbox.len();
        let mut i: usize = 0;
        proof {
            assert(inbox0.skip(0) =~= inbox0);
        }
        while i < n
            invariant
                self.wf(),
                i <= n,
                n == self.instantiation_inbox@.len(),
                Self::same_session(*old(self), *self),
                self.instantiation_inbox@ == old(self).instantiation_inbox@,
                inbox0 == old(self).instantiation_inbox@,
                paths0 == old(self).registered_paths@,
                goal == resolve_all(resolve_image(*old(self)), paths0, inbox0),
                self.instantiation_id == old(self).instantiation_id,
                self.allocated@ == old(self).allocated@,
                self.registered_paths@ == old(self).registered_paths@,
                self.lobby_requests@ == old(self).lobby_requests@,
                self.outbound@ == old(self).outbound@,
                self.inbound_packets@ == old(self).inbound_packets@,
                self.transform_updates@ == old(self).transform_updates@,
                resolve_all(resolve_image(*self), paths0, inbox0.skip(i as int)) == goal,
            decreases n - i,
        {
            let ghost before = resolve_image(*self);
            let item = self.instantiation_inbox[i].clone();
            self.apply_instantiation(item);
            proof {
                assert(inbox0.skip(i as int).first() == inbox0[i as int]);
                assert(inbox0.skip(i as int).drop_first() =~= inbox0.skip(i as int + 1));
                assert(resolve_all(before, paths0, inbox0.skip(i as int)) == resolve_all(
                    resolve_step(before, paths0, inbox0[i as int]),
                    paths0,
                    inbox0.skip(i as int + 1),
                ));
            }
            i = i + 1;
        }
        proof {
            assert(inbox0.skip(n as int) =~= Seq::<InstantiationData>::empty());
            assert(resolve_all(resolve_image(*self), paths0, inbox0.skip(n as int))
                == resolve_image(*self));
        }
        self.instantiation_inbox.clear();
    }
}

/// Whether a deferred instantiation's parent is now materialized.
pub open spec fn parent_ready(objs: Seq<NetworkedObject>, d: InstantiationData) -> bool {
    d.network_identity.parent_id matches Some(p) && has_object_id(objs, p)
}

/// The queue entries still waiting after one pass over `objs`, in order.
pub open spec fn still_pending(
    q: Seq<InstantiationData>,
    objs: Seq<NetworkedObject>,
) -> Seq<InstantiationData>
    decreases q.len(),
{
    if q.len() == 0 {
        Seq::empty()
    } else {
        let rest = still_pending(q.drop_last(), objs);
        if parent_ready(objs, q.last()) {
            rest
        } else {
            rest.push(q.last())
        }
    }
}

/// The queue entries whose parent has appeared, in order.
pub open spec fn now_ready(
    q: Seq<InstantiationData>,
    objs: Seq<NetworkedObject>,
) -> Seq<InstantiationData>
    decreases q.len(),
{
    if q.len() == 0 {
        Seq::empty()
    } else {
        let rest = now_ready(q.drop_last(), objs);
        if parent_ready(objs, q.last()) {
            rest.push(q.last())
        } else {
            rest
        }
    }
}

impl SteamP2PClient {
    /// The exact effect of one retry pass: the queue keeps exactly the
    /// entries whose parent is still missing, and the resolver's transition
    /// is folded over the entries whose parent has appeared, in arrival
    /// order, starting from the thinned queue.
    pub open spec fn queued_pass(pre: Self, post: Self) -> bool {
        &&& post.wf()
        &&& Self::same_session(pre, post)
        &&& post.instantiation_id == pre.instantiation_id
        &&& post.allocated@ == pre.allocated@
        &&& post.registered_paths@ == pre.registered_paths@
        &&& post.lobby_requests@ == pre.lobby_requests@
        &&& post.outbound@ == pre.outbound@
        &&& post.inbound_packets@ == pre.inbound_packets@
        &&& post.transform_updates@ == pre.transform_updates@
        &&& post.instantiation_inbox@ == pre.instantiation_inbox@
        &&& post.queued_instantiations@ == still_pending(
            pre.queued_instantiations@,
            pre.objects@,
        )
        &&& resolve_image(post) == resolve_all(
            (ResolveImage {
                objects: pre.objects@,
                queued: still_pending(pre.queued_instantiations@, pre.objects@),
                app_events: pre.app_events@,
            }),
            pre.registered_paths@,
            now_ready(pre.queued_instantiations@, pre.objects@),
        )
    }

    /// One retry pass of the resolver: every deferred instantiation whose
    /// parent is materialized by now is resolved, in arrival order; the rest
    /// keep waiting. Run once per tick, so a dependency chain resolves one
    /// level per tick.
    pub fn handle_queued_instantiations(&mut self)
        requires
            old(self).wf(),
        ensures
            Self::queued_pass(*old(self), *final(self)),
    {
        let ghost objs0 = self.objects@;
        let ghost q0 = self.queued_instantiations@;
        let n = self.queued_instantiations.len();
        let mut waiting: Vec<InstantiationData> = Vec::new();
        let mut ready: Vec<InstantiationData> = Vec::new();
        let mut i: usize = 0;
        proof {
            assert(q0.take(0) =~= Seq::<InstantiationData>::empty());
            assert(still_pending(q0.take(0), objs0) =~= Seq::<InstantiationData>::empty());
            assert(now_ready(q0.take(0), objs0) =~= Seq::<InstantiationData>::empty());
        }
        while i < n
            invariant
                self.wf(),
                i <= n,
                n == q0.len(),
                self == old(self),
                q0 == self.queued_instantiations@,
                objs0 == self.objects@,
                waiting@ == still_pending(q0.take(i as int), objs0),
                ready@ == now_ready(q0.take(i as int), objs0),
                forall|k: int| 0 <= k < ready@.len() ==> parent_ready(objs0, #[trigger] ready@[k]),
                forall|k: int|
                    0 <= k < waiting@.len() ==> (#[trigger] waiting@[k]).network_identity.parent_id
                        is Some,
            decreases n - i,
        {
            let d = self.queued_instantiations[i].clone();
            proof {
                assert(q0.take(i as int + 1).drop_last() =~= q0.take(i as int));
                assert(q0.take(i as int + 1).last() == q0[i as int]);
            }
            let is_ready = match d.network_identity.parent_id {
                Some(p) => self.find_object_index(p).is_some(),
                None => false,
            };
            if is_ready {
                ready.push(d);
            } else {
                waiting.push(d);
            }
            i = i + 1;
        }
        proof {
            assert(q0.take(n as int) =~= q0);
        }
        self.queued_instantiations = waiting;
        let ghost mid = *self;
        let ghost paths0 = self.registered_paths@;
        let ghost goal = resolve_all(resolve_image(*self), paths0, ready@);
        let m = ready.len();
        let mut k: usize = 0;
        proof {
            assert(self.objects@.take(objs0.len() as int) =~= objs0);
            assert(ready@.skip(0) =~= ready@);
        }
        while k < m
            invariant
                self.wf(),
                k <= m,
                m == ready@.len(),
                forall|j: int| 0 <= j < ready@.len() ==> parent_ready(objs0, #[trigger] ready@[j]),
                Self::same_session(mid, *self),
                Self::same_session(*old(self), mid),
                paths0 == old(self).registered_paths@,
                goal == resolve_all(resolve_image(mid), paths0, ready@),
                self.instantiation_id == old(self).instantiation_id,
                self.allocated@ == old(self).allocated@,
                self.registered_paths@ == old(self).registered_paths@,
                self.lobby_requests@ == old(self).lobby_requests@,
                self.outbound@ == old(self).outbound@,
                self.inbound_packets@ == old(self).inbound_packets@,
                self.transform_updates@ == old(self).transform_updates@,
                self.instantiation_inbox@ == old(self).instantiation_inbox@,
                self.queued_instantiations@ == mid.queued_instantiations@,
                self.objects@.len() >= objs0.len(),
                self.objects@.take(objs0.len() as int) == objs0,
                resolve_all(resolve_image(*self), paths0, ready@.skip(k as int)) == goal,
            decreases m - k,
        {
            let ghost before = resolve_image(*self);
            let d = ready[k].clone();
            proof {
                let p = d.network_identity.parent_id->0;
                let w = choose|w: int| 0 <= w < objs0.len() && objs0[w].identity.id == p;
                assert(self.objects@[w] == objs0[w]);
                assert(has_object_id(self.objects@, p));
            }
            self.apply_instantiation(d);
            proof {
                assert(self.objects@.take(objs0.len() as int) =~= objs0);
                assert(ready@.skip(k as int).first() == ready@[k as int]);
                assert(ready@.skip(k as int).drop_first() =~= ready@.skip(k as int + 1));
                assert(resolve_all(before, paths0, ready@.skip(k as int)) == resolve_all(
                    resolve_step(before, paths0, ready@[k as int]),
                    paths0,
                    ready@.skip(k as int + 1),
                ));
            }
            k = k + 1;
        }
        proof {
            assert(ready@.skip(m as int) =~= Seq::<InstantiationData>::empty());
            assert(resolve_all(resolve_image(*self), paths0, ready@.skip(m as int))
                == resolve_image(*self));
        }
    }
}

impl Clone for NetworkedObject {
    fn clone(&self) -> (r: NetworkedObject)
        ensures
            r == *self,
    {
        NetworkedObject {
            identity: self.identity.clone(),
            transform: self.transform,
            networked_transform: self.networked_transform,
        }
    }
}

/// The objects that `peer` does not own, in order.
pub open spec fn objects_not_owned_by(
    objs: Seq<NetworkedObject>,
    peer: SteamId,
) -> Seq<NetworkedObject>
    decreases objs.len(),
{
    if objs.len() == 0 {
        Seq::empty()
    } else {
        let rest = objects_not_owned_by(objs.drop_last(), peer);
        if objs.last().identity.id.owner == peer {
            rest
        } else {
            rest.push(objs.last())
        }
    }
}

/// One `Destroyed` effect per object that `peer` owns, in order.
pub open spec fn destroyed_events_for(objs: Seq<NetworkedObject>, peer: SteamId) -> Seq<AppEvent>
    decreases objs.len(),
{
    if objs.len() == 0 {
        Seq::empty()
    } else {
        let rest = destroyed_events_for(objs.drop_last(), peer);
        if objs.last().identity.id.owner == peer {
            rest.push(AppEvent::Destroyed(objs.last().identity))
        } else {
            rest
        }
    }
}

proof fn lemma_not_owned_contains(objs: Seq<NetworkedObject>, peer: SteamId)
    ensures
        forall|x: NetworkedObject| #[trigger]
            objects_not_owned_by(objs, peer).contains(x) ==> objs.contains(x)
                && x.identity.id.owner != peer,
    decreases objs.len(),
{
    if objs.len() > 0 {
        lemma_not_owned_contains(objs.drop_last(), peer);
        let kept = objects_not_owned_by(objs, peer);
        let rest = objects_not_owned_by(objs.drop_last(), peer);
        assert forall|x: NetworkedObject| #[trigger]
            kept.contains(x) implies objs.contains(x) && x.identity.id.owner != peer by {
            if objs.last().identity.id.owner == peer {
                assert(rest.contains(x));
                let j = choose|j: int| 0 <= j < objs.drop_last().len() && objs.drop_last()[j] == x;
                assert(objs[j] == x);
            } else {
                let k = choose|k: int| 0 <= k < kept.len() && kept[k] == x;
                if k < rest.len() {
                    assert(rest.contains(x)) by {
                        assert(rest[k] == x);
                    }
                    let j = choose|j: int|
                        0 <= j < objs.drop_last().len() && objs.drop_last()[j] == x;
                    assert(objs[j] == x);
                } else {
                    assert(x == objs.last());
                    assert(objs[objs.len() - 1] == x);
                }
            }
        }
    }
}

proof fn lemma_not_owned_distinct(objs: Seq<NetworkedObject>, peer: SteamId)
    requires
        distinct_object_ids(objs),
    ensures
        distinct_object_ids(objects_not_owned_by(objs, peer)),
    decreases objs.len(),
{
    if objs.len() > 0 {
        assert(distinct_object_ids(objs.drop_last())) by {
            assert(forall|i: int|
                0 <= i < objs.len() - 1 ==> objs.drop_last()[i] == #[trigger] objs[i]);
        }
        lemma_not_owned_distinct(objs.drop_last(), peer);
        lemma_not_owned_contains(objs.drop_last(), peer);
        let kept = objects_not_owned_by(objs, peer);
        let rest = objects_not_owned_by(objs.drop_last(), peer);
        if objs.last().identity.id.owner != peer {
            assert forall|i: int, j: int|
                #![trigger kept[i], kept[j]]
                0 <= i < j < kept.len() implies kept[i].identity.id != kept[j].identity.id by {
                if j < kept.len() - 1 {
                    assert(rest[i] == kept[i] && rest[j] == kept[j]);
                } else {
                    assert(rest[i] == kept[i]);
                    assert(rest.contains(rest[i]));
                    let w = choose|w: int|
                        0 <= w < objs.drop_last().len() && objs.drop_last()[w] == rest[i];
                    assert(objs[w] == rest[i]);
                    assert(objs[w].identity.id != objs[objs.len() - 1].identity.id);
                }
            }
        }
    }
}

/// The objects with the first occurrence of `id` removed; unchanged when no
/// object carries it.
pub open spec fn remove_object_with_id(objs: Seq<NetworkedObject>, id: NetworkId) -> Seq<
    NetworkedObject,
>
    decreases objs.len(),
{
    if objs.len() == 0 {
        objs
    } else if objs.first().identity.id == id {
        objs.drop_first()
    } else {
        seq![objs.first()] + remove_object_with_id(objs.drop_first(), id)
    }
}

/// The first object carrying `id`; meaningful only when one exists.
pub open spec fn first_object_with_id(objs: Seq<NetworkedObject>, id: NetworkId) -> NetworkedObject
    decreases objs.len(),
{
    if objs.len() == 0 {
        objs.first()
    } else if objs.first().identity.id == id {
        objs.first()
    } else {
        first_object_with_id(objs.drop_first(), id)
    }
}

proof fn lemma_remove_object_at_first(objs: Seq<NetworkedObject>, id: NetworkId, i: int)
    requires
        0 <= i < objs.len(),
        objs[i].identity.id == id,
        forall|j: int| 0 <= j < i ==> objs[j].identity.id != id,
    ensures
        remove_object_with_id(objs, id) == objs.remove(i),
        first_object_with_id(objs, id) == objs[i],
    decreases i,
{
    if i == 0 {
        assert(objs.drop_first() =~= objs.remove(0));
    } else {
        assert(objs.drop_first()[i - 1].identity.id == id);
        assert(forall|j: int| 0 <= j < i - 1 ==> objs.drop_first()[j].identity.id != id);
        lemma_remove_object_at_first(objs.drop_first(), id, i - 1);
        assert(seq![objs.first()] + objs.drop_first().remove(i - 1) =~= objs.remove(i));
    }
}

/// The state the envelope dispatcher reads and writes.
#[verifier::ext_equal]
pub struct DispatchImage {
    pub members: Seq<SteamId>,
    pub objects: Seq<NetworkedObject>,
    pub app_events: Seq<AppEvent>,
    pub transform_updates: Seq<TransformUpdate>,
    pub instantiation_inbox: Seq<InstantiationData>,
}

pub open spec fn dispatch_image(c: SteamP2PClient) -> DispatchImage {
    DispatchImage {
        members: c.lobby_members@,
        objects: c.objects@,
        app_events: c.app_events@,
        transform_updates: c.transform_updates@,
        instantiation_inbox: c.instantiation_inbox@,
    }
}

/// The dispatcher's transition for one decoded envelope, routed by variant.
pub open spec fn dispatch_step(
    s: DispatchImage,
    entries: Seq<u64>,
    packet: NetworkPacket,
) -> DispatchImage {
    match packet.data {
        NetworkData::NetworkedAction(identity, action_id, action_data) => DispatchImage {
            app_events: s.app_events.push(
                AppEvent::NetworkedAction(
                    NetworkedAction { network_identity: identity, action_id, action_data },
                ),
            ),
            ..s
        },
        NetworkData::TransformUpdate(identity, position, rotation, scale) => DispatchImage {
            transform_updates: s.transform_updates.push(
                TransformUpdate { network_identity: identity, position, rotation, scale },
            ),
            ..s
        },
        NetworkData::Destroy(identity) => {
            if has_object_id(s.objects, identity.id) {
                DispatchImage {
                    objects: remove_object_with_id(s.objects, identity.id),
                    app_events: s.app_events.push(
                        AppEvent::Destroyed(first_object_with_id(s.objects, identity.id).identity),
                    ),
                    ..s
                }
            } else {
                s
            }
        },
        NetworkData::OtherJoined(joined) => DispatchImage {
            members: if s.members.contains(joined) {
                s.members
            } else {
                s.members.push(joined)
            },
            app_events: s.app_events.push(AppEvent::OtherJoined(OtherJoined(joined))),
            ..s
        },
        NetworkData::DebugMessage(message) => DispatchImage {
            app_events: s.app_events.push(AppEvent::DebugMessage(message)),
            ..s
        },
        NetworkData::Instantiate(data) => DispatchImage {
            instantiation_inbox: s.instantiation_inbox.push(data),
            ..s
        },
        NetworkData::Event(bytes, index) => {
            if index < entries.len() {
                DispatchImage {
                    app_events: s.app_events.push(AppEvent::Event(entries[index as int], bytes)),
                    ..s
                }
            } else {
                s
            }
        },
        NetworkData::NetworkMessage(_) => s,
    }
}

/// The dispatcher's transition folded over a whole batch, in arrival order.
pub open spec fn dispatch_all(
    s: DispatchImage,
    entries: Seq<u64>,
    packets: Seq<NetworkPacket>,
) -> DispatchImage
    decreases packets.len(),
{
    if packets.len() == 0 {
        s
    } else {
        dispatch_all(dispatch_step(s, entries, packets.first()), entries, packets.drop_first())
    }
}

impl SteamP2PClient {
    /// Index of `peer` in the member list, if present.
    fn find_member_index(&self, peer: SteamId) -> (r: Option<usize>)
        ensures
            r matches Some(i) ==> i < self.lobby_members@.len() && self.lobby_members@[i as int]
                == peer,
            r is None ==> forall|j: int| 0 <= j < self.lobby_members@.len()
                ==> self.lobby_members@[j] != peer,
    {
        let n = self.lobby_members.len();
        let mut i: usize = 0;
        while i < n
            invariant
                i <= n,
                n == self.lobby_members@.len(),
                forall|j: int| 0 <= j < i ==> self.lobby_members@[j] != peer,
            decreases n - i,
        {
            if self.lobby_members[i] == peer {
                return Some(i);
            }
            i = i + 1;
        }
        None
    }

    /// Route one decoded envelope to its sub-handler: actions and debug
    /// traffic surface to the application, pose samples join the
    /// reconciliation inbox, instantiations join the resolver inbox, a
    /// destroy tears one object down, a presence announcement extends the
    /// member list, an `Event` of a registered index is delivered and one of
    /// an unregistered index is dropped, and free-form messages are dropped.
    pub fn handle_network_data(
        &mut self,
        register: &crate::networked_events::NetworkedEventRegister,
        packet: NetworkPacket,
    )
        requires
            old(self).wf(),
            register.wf(),
        ensures
            final(self).wf(),
            final(self).id == old(self).id,
            final(self).lobby_status == old(self).lobby_status,
            final(self).lobby_owner == old(self).lobby_owner,
            final(self).steam_bevy_channel == old(self).steam_bevy_channel,
            final(self).instantiation_id == old(self).instantiation_id,
            final(self).allocated@ == old(self).allocated@,
            final(self).queued_instantiations@ == old(self).queued_instantiations@,
            final(self).registered_paths@ == old(self).registered_paths@,
            final(self).inbound_packets@ == old(self).inbound_packets@,
            final(self).lobby_requests@ == old(self).lobby_requests@,
            final(self).outbound@ == old(self).outbound@,
            dispatch_image(*final(self)) == dispatch_step(
                dispatch_image(*old(self)),
                register.entries@,
                packet,
            ),
            ({
                let members = old(self).lobby_members@;
                let objs = old(self).objects@;
                let evs = old(self).app_events@;
                let tus = old(self).transform_updates@;
                let inbox = old(self).instantiation_inbox@;
                match packet.data {
                    NetworkData::NetworkedAction(identity, action_id, action_data) => {
                        &&& final(self).app_events@ == evs.push(
                            AppEvent::NetworkedAction(
                                NetworkedAction {
                                    network_identity: identity,
                                    action_id,
                                    action_data,
                                },
                            ),
                        )
                        &&& final(self).lobby_members@ == members
                        &&& final(self).objects@ == objs
                        &&& final(self).transform_updates@ == tus
                        &&& final(self).instantiation_inbox@ == inbox
                    },
                    NetworkData::TransformUpdate(identity, position, rotation, scale) => {
                        &&& final(self).transform_updates@ == tus.push(
                            TransformUpdate { network_identity: identity, position, rotation, scale },
                        )
                        &&& final(self).lobby_members@ == members
                        &&& final(self).objects@ == objs
                        &&& final(self).app_events@ == evs
                        &&& final(self).instantiation_inbox@ == inbox
                    },
                    NetworkData::Destroy(identity) => {
                        &&& (has_object_id(objs, identity.id) ==> final(self).objects@
                            == remove_object_with_id(objs, identity.id) && final(self).app_events@
                            == evs.push(
                            AppEvent::Destroyed(first_object_with_id(objs, identity.id).identity),
                        ))
                        &&& (!has_object_id(objs, identity.id) ==> final(self).objects@ == objs
                            && final(self).app_events@ == evs)
                        &&& final(self).lobby_members@ == members
                        &&& final(self).transform_updates@ == tus
                        &&& final(self).instantiation_inbox@ == inbox
                    },
                    NetworkData::OtherJoined(joined) => {
                        &&& final(self).lobby_members@ == if members.contains(joined) {
                            members
                        } else {
                            members.push(joined)
                        }
                        &&& final(self).app_events@ == evs.push(
                            AppEvent::OtherJoined(OtherJoined(joined)),
                        )
                        &&& final(self).objects@ == objs
                        &&& final(self).transform_updates@ == tus
                        &&& final(self).instantiation_inbox@ == inbox
                    },
                    NetworkData::DebugMessage(message) => {
                        &&& final(self).app_events@ == evs.push(AppEvent::DebugMessage(message))
                        &&& final(self).lobby_members@ == members
                        &&& final(self).objects@ == objs
                        &&& final(self).transform_updates@ == tus
                        &&& final(self).instantiation_inbox@ == inbox
                    },
                    NetworkData::Instantiate(data) => {
                        &&& final(self).instantiation_inbox@ == inbox.push(data)
                        &&& final(self).lobby_members@ == members
                        &&& final(self).objects@ == objs
                        &&& final(self).app_events@ == evs
                        &&& final(self).transform_updates@ == tus
                    },
                    NetworkData::Event(bytes, index) => {
                        &&& (index < register.entries@.len() ==> final(self).app_events@
                            == evs.push(
                            AppEvent::Event(register.entries@[index as int], bytes),
                        ))
                        &&& (index >= register.entries@.len() ==> final(self).app_events@ == evs)
                        &&& final(self).lobby_members@ == members
                        &&& final(self).objects@ == objs
                        &&& final(self).transform_updates@ == tus
                        &&& final(self).instantiation_inbox@ == inbox
                    },
                    NetworkData::NetworkMessage(_) => {
                        &&& final(self).lobby_members@ == members
                        &&& final(self).objects@ == objs
                        &&& final(self).app_events@ == evs
                        &&& final(self).transform_updates@ == tus
                        &&& final(self).instantiation_inbox@ == inbox
                    },
                }
            }),
    {
        match packet.data {
            NetworkData::NetworkedAction(identity, action_id, action_data) => {
                self.app_events.push(
                    AppEvent::NetworkedAction(
                        NetworkedAction { network_identity: identity, action_id, action_data },
                    ),
                );
            },
            NetworkData::TransformUpdate(identity, position, rotation, scale) => {
                self.transform_updates.push(
                    TransformUpdate { network_identity: identity, position, rotation, scale },
                );
            },
            NetworkData::Destroy(identity) => {
                match self.find_object_index(identity.id) {
                    Some(i) => {
                        let ghost objs = self.objects@;
                        let destroyed = self.objects[i].identity.clone();
                        self.objects.remove(i);
                        self.app_events.push(AppEvent::Destroyed(destroyed));
                        proof {
                            lemma_remove_object_at_first(objs, identity.id, i as int);
                        }
                        proof {
                            assert forall|a: int, b: int|
                                #![trigger self.objects@[a], self.objects@[b]]
                                0 <= a < b < self.objects@.len() implies self.objects@[a].identity.id
                                != self.objects@[b].identity.id by {
                                if a < i && b < i {
                                    assert(self.objects@[a] == objs[a] && self.objects@[b]
                                        == objs[b]);
                                } else if a < i {
                                    assert(self.objects@[a] == objs[a] && self.objects@[b]
                                        == objs[b + 1]);
                                } else {
                                    assert(self.objects@[a] == objs[a + 1] && self.objects@[b]
                                        == objs[b + 1]);
                                }
                            }
                        }
                    },
                    None => {},
                }
            },
            NetworkData::OtherJoined(joined) => {
                match self.find_member_index(joined) {
                    Some(_) => {
                        proof {
                            assert(self.lobby_members@.contains(joined));
                        }
                    },
                    None => {
                        self.lobby_members.push(joined);
                    },
                }
                self.app_events.push(AppEvent::OtherJoined(OtherJoined(joined)));
            },
            NetworkData::DebugMessage(message) => {
                self.app_events.push(AppEvent::DebugMessage(message));
            },
            NetworkData::Instantiate(data) => {
                self.instantiation_inbox.push(data);
            },
            NetworkData::Event(bytes, index) => {
                if (index as usize) < register.entries.len() {
                    let key = register.entries[index as usize];
                    self.app_events.push(AppEvent::Event(key, bytes));
                }
            },
            NetworkData::NetworkMessage(_) => {},
        }
    }

    /// The exact effect of one dispatch drain: the dispatcher's transition
    /// folded over every drained packet, and nothing else touched.
    pub open spec fn dispatch_pass(pre: Self, post: Self, entries: Seq<u64>) -> bool {
        &&& post.wf()
        &&& post.id == pre.id
        &&& post.lobby_status == pre.lobby_status
        &&& post.lobby_owner == pre.lobby_owner
        &&& post.steam_bevy_channel == pre.steam_bevy_channel
        &&& post.instantiation_id == pre.instantiation_id
        &&& post.allocated@ == pre.allocated@
        &&& post.queued_instantiations@ == pre.queued_instantiations@
        &&& post.registered_paths@ == pre.registered_paths@
        &&& post.lobby_requests@ == pre.lobby_requests@
        &&& post.outbound@ == pre.outbound@
        &&& post.inbound_packets@.len() == 0
        &&& dispatch_image(post) == dispatch_all(
            dispatch_image(pre),
            entries,
            pre.inbound_packets@,
        )
    }

    /// Drain every inbound packet through the dispatcher, in arrival order,
    /// before any downstream pass runs: each drained envelope is routed
    /// exactly once, as [`dispatch_step`] says.
    pub fn dispatch_inbound(
        &mut self,
        register: &crate::networked_events::NetworkedEventRegister,
    )
        requires
            old(self).wf(),
            register.wf(),
        ensures
            Self::dispatch_pass(*old(self), *final(self), register.entries@),
    {
        let mut packets: Vec<NetworkPacket> = Vec::new();
        core::mem::swap(&mut packets, &mut self.inbound_packets);
        let ghost packets0 = packets@;
        let ghost entries0 = register.entries@;
        let ghost goal = dispatch_all(dispatch_image(*self), entries0, packets0);
        while packets.len() > 0
            invariant
                self.wf(),
                register.wf(),
                entries0 == register.entries@,
                self.id == old(self).id,
                self.lobby_status == old(self).lobby_status,
                self.lobby_owner == old(self).lobby_owner,
                self.steam_bevy_channel == old(self).steam_bevy_channel,
                self.instantiation_id == old(self).instantiation_id,
                self.allocated@ == old(self).allocated@,
                self.queued_instantiations@ == old(self).queued_instantiations@,
                self.registered_paths@ == old(self).registered_paths@,
                self.lobby_requests@ == old(self).lobby_requests@,
                self.outbound@ == old(self).outbound@,
                self.inbound_packets@.len() == 0,
                goal == dispatch_all(dispatch_image(*old(self)), entries0, packets0),
                dispatch_all(dispatch_image(*self), entries0, packets@) == goal,
            decreases packets.len(),
        {
            let ghost before = dispatch_image(*self);
            let ghost remaining = packets@;
            let packet = packets.remove(0);
            self.handle_network_data(register, packet);
            proof {
                assert(remaining.first() == remaining[0]);
                assert(packets@ =~= remaining.drop_first());
                assert(dispatch_all(before, entries0, remaining) == dispatch_all(
                    dispatch_step(before, entries0, remaining[0]),
                    entries0,
                    remaining.drop_first(),
                ));
            }
        }
        proof {
            assert(packets@ =~= Seq::<NetworkPacket>::empty());
            assert(dispatch_all(dispatch_image(*self), entries0, packets@)
                == dispatch_image(*self));
        }
    }

    /// A peer entered the lobby: remember it, and if the local peer owns the
    /// session, replay every currently materialized object to the joiner
    /// only, each with its live pose. Replay order is store order; parents
    /// are not guaranteed to precede children, which is why the joiner's
    /// resolver queue exists.
    pub fn handle_joiner(&mut self, joiner: SteamId)
        requires
            old(self).wf(),
        ensures
            final(self).wf(),
            final(self).id == old(self).id,
            final(self).lobby_status == old(self).lobby_status,
            final(self).lobby_owner == old(self).lobby_owner,
            final(self).steam_bevy_channel == old(self).steam_bevy_channel,
            Self::same_replication(*old(self), *final(self)),
            Self::same_inboxes(*old(self), *final(self)),
            final(self).lobby_requests@ == old(self).lobby_requests@,
            final(self).app_events@ == old(self).app_events@,
            final(self).lobby_members@ == if old(self).lobby_members@.contains(joiner) {
                old(self).lobby_members@
            } else {
                old(self).lobby_members@.push(joiner)
            },
            old(self).lobby_owner == Some(old(self).id) ==> {
                let objs = old(self).objects@;
                &&& final(self).outbound@.len() == old(self).outbound@.len() + objs.len()
                &&& final(self).outbound@.take(old(self).outbound@.len() as int) == old(
                    self,
                ).outbound@
                &&& forall|k: int|
                    0 <= k < objs.len() ==> {
                        let m = #[trigger] final(self).outbound@[old(self).outbound@.len() + k];
                        &&& m.target == joiner
                        &&& m.flags == SendFlags::Reliable
                        &&& m.payload@ == enc_data(
                            crate::NetworkDataView::Instantiate(
                                crate::InstantiationDataView {
                                    network_identity: objs[k].identity@,
                                    starting_transform: objs[k].transform,
                                },
                            ),
                        )
                    }
            },
            old(self).lobby_owner != Some(old(self).id) ==> final(self).outbound@ == old(
                self,
            ).outbound@,
    {
        match self.find_member_index(joiner) {
            Some(_) => {
                proof {
                    assert(self.lobby_members@.contains(joiner));
                }
            },
            None => {
                self.lobby_members.push(joiner);
            },
        }
        let am_owner = match self.is_lobby_owner() {
            Ok(owner) => owner,
            Err(_) => false,
        };
        if !am_owner {
            return ;
        }
        let ghost objs = self.objects@;
        let ghost ob0 = self.outbound@;
        let n = self.objects.len();
        let mut i: usize = 0;
        proof {
            assert(self.outbound@.take(ob0.len() as int) =~= ob0);
        }
        while i < n
            invariant
                self.wf(),
                i <= n,
                n == objs.len(),
                self.objects@ == objs,
                self.lobby_status is InLobby,
                self.id == old(self).id,
                self.lobby_status == old(self).lobby_status,
                self.lobby_owner == old(self).lobby_owner,
                self.steam_bevy_channel == old(self).steam_bevy_channel,
                Self::same_replication(*old(self), *self),
                Self::same_inboxes(*old(self), *self),
                self.lobby_requests@ == old(self).lobby_requests@,
                self.app_events@ == old(self).app_events@,
                self.lobby_members@ == if old(self).lobby_members@.contains(joiner) {
                    old(self).lobby_members@
                } else {
                    old(self).lobby_members@.push(joiner)
                },
                ob0 == old(self).outbound@,
                self.outbound@.len() == ob0.len() + i,
                self.outbound@.take(ob0.len() as int) == ob0,
                forall|k: int|
                    0 <= k < i ==> {
                        let m = #[trigger] self.outbound@[ob0.len() + k];
                        &&& m.target == joiner
                        &&& m.flags == SendFlags::Reliable
                        &&& m.payload@ == enc_data(
                            crate::NetworkDataView::Instantiate(
                                crate::InstantiationDataView {
                                    network_identity: objs[k].identity@,
                                    starting_transform: objs[k].transform,
                                },
                            ),
                        )
                    },
            decreases n - i,
        {
            let data = NetworkData::Instantiate(
                InstantiationData {
                    network_identity: self.objects[i].identity.clone(),
                    starting_transform: self.objects[i].transform,
                },
            );
            let ghost prev_ob = self.outbound@;
            let _sent = self.send_message(&data, joiner, SendFlags::Reliable);
            proof {
                assert(self.outbound@.take(ob0.len() as int) =~= ob0);
                assert forall|k2: int| 0 <= k2 < i + 1 implies {
                    let m = #[trigger] self.outbound@[ob0.len() + k2];
                    &&& m.target == joiner
                    &&& m.flags == SendFlags::Reliable
                    &&& m.payload@ == enc_data(
                        crate::NetworkDataView::Instantiate(
                            crate::InstantiationDataView {
                                network_identity: objs[k2].identity@,
                                starting_transform: objs[k2].transform,
                            },
                        ),
                    )
                } by {
                    if k2 < i {
                        assert(self.outbound@.take(prev_ob.len() as int)[ob0.len() + k2]
                            == prev_ob[ob0.len() + k2]);
                    } else {
                        assert(self.outbound@[ob0.len() + k2] == self.outbound@.last());
                    }
                }
            }
            i = i + 1;
        }
    }

    /// A peer left or disconnected: forget it and destroy exactly the
    /// objects it owned, surfacing one `Destroyed` effect per object, in
    /// store order.
    pub fn handle_peer_left(&mut self, peer: SteamId)
        requires
            old(self).wf(),
        ensures
            final(self).wf(),
            final(self).id == old(self).id,
            final(self).lobby_status == old(self).lobby_status,
            final(self).lobby_owner == old(self).lobby_owner,
            final(self).steam_bevy_channel == old(self).steam_bevy_channel,
            final(self).instantiation_id == old(self).instantiation_id,
            final(self).allocated@ == old(self).allocated@,
            final(self).queued_instantiations@ == old(self).queued_instantiations@,
            final(self).registered_paths@ == old(self).registered_paths@,
            Self::same_inboxes(*old(self), *final(self)),
            final(self).lobby_requests@ == old(self).lobby_requests@,
            final(self).outbound@ == old(self).outbound@,
            final(self).lobby_members@ == others_of(old(self).lobby_members@, peer),
            final(self).objects@ == objects_not_owned_by(old(self).objects@, peer),
            final(self).app_events@ == old(self).app_events@ + destroyed_events_for(
                old(self).objects@,
                peer,
            ),
    {
        let ghost members0 = self.lobby_members@;
        let n_members = self.lobby_members.len();
        let mut kept_members: Vec<SteamId> = Vec::new();
        let mut i: usize = 0;
        proof {
            assert(members0.take(0) =~= Seq::<SteamId>::empty());
        }
        while i < n_members
            invariant
                i <= n_members,
                n_members == members0.len(),
                self.lobby_members@ == members0,
                kept_members@ == others_of(members0.take(i as int), peer),
            decreases n_members - i,
        {
            let member = self.lobby_members[i];
            proof {
                assert(members0.take(i as int + 1).drop_last() =~= members0.take(i as int));
            }
            if member != peer {
                kept_members.push(member);
            }
            i = i + 1;
        }
        proof {
            assert(members0.take(n_members as int) =~= members0);
        }
        self.lobby_members = kept_members;

        let ghost objs0 = self.objects@;
        let ghost evs0 = self.app_events@;
        let n = self.objects.len();
        let mut kept: Vec<NetworkedObject> = Vec::new();
        let mut k: usize = 0;
        proof {
            assert(objs0.take(0) =~= Seq::<NetworkedObject>::empty());
            assert(self.app_events@ =~= evs0 + destroyed_events_for(objs0.take(0), peer));
        }
        while k < n
            invariant
                k <= n,
                n == objs0.len(),
                self.objects@ == objs0,
                kept@ == objects_not_owned_by(objs0.take(k as int), peer),
                self.app_events@ == evs0 + destroyed_events_for(objs0.take(k as int), peer),
                self.id == old(self).id,
                self.lobby_status == old(self).lobby_status,
                self.lobby_owner == old(self).lobby_owner,
                self.steam_bevy_channel == old(self).steam_bevy_channel,
                self.instantiation_id == old(self).instantiation_id,
                self.allocated@ == old(self).allocated@,
                self.queued_instantiations@ == old(self).queued_instantiations@,
                self.registered_paths@ == old(self).registered_paths@,
                Self::same_inboxes(*old(self), *self),
                self.lobby_requests@ == old(self).lobby_requests@,
                self.outbound@ == old(self).outbound@,
                self.lobby_members@ == others_of(members0, peer),
                members0 == old(self).lobby_members@,
                evs0 == old(self).app_events@,
                objs0 == old(self).objects@,
                distinct_object_ids(objs0),
                self.lobby_status is InLobby <==> self.lobby_owner is Some,
            decreases n - k,
        {
            let obj = self.objects[k].clone();
            proof {
                assert(objs0.take(k as int + 1).drop_last() =~= objs0.take(k as int));
            }
            if obj.identity.id.owner == peer {
                self.app_events.push(AppEvent::Destroyed(obj.identity));
            } else {
                kept.push(obj);
            }
            k = k + 1;
        }
        proof {
            assert(objs0.take(n as int) =~= objs0);
            lemma_not_owned_distinct(objs0, peer);
        }
        self.objects = kept;
    }
}

/// The targets after one inbound pose sample, original toggles kept.
pub open spec fn apply_update_spec(
    nt: NetworkedTransform,
    u: TransformUpdate,
) -> NetworkedTransform {
    NetworkedTransform {
        target_position: if u.position is Some {
            u.position->0
        } else {
            nt.target_position
        },
        target_rotation: if u.rotation is Some {
            u.rotation->0
        } else {
            nt.target_rotation
        },
        target_scale: if u.scale is Some {
            u.scale->0
        } else {
            nt.target_scale
        },
        sync_position: nt.sync_position,
        sync_rotation: nt.sync_rotation,
        sync_scale: nt.sync_scale,
    }
}

/// The targets after every sample addressed to `id`, applied in order.
pub open spec fn targets_after(
    nt: NetworkedTransform,
    id: NetworkId,
    updates: Seq<TransformUpdate>,
) -> NetworkedTransform
    decreases updates.len(),
{
    if updates.len() == 0 {
        nt
    } else {
        let prev = targets_after(nt, id, updates.drop_last());
        if updates.last().network_identity.id == id {
            apply_update_spec(prev, updates.last())
        } else {
            prev
        }
    }
}

/// One reconciliation step for one object: samples overwrite the targets;
/// then a remote-owned object smooths its live pose toward them on each
/// sync-enabled channel, while an owned object keeps its live pose (its
/// samples go out on the wire instead).
pub open spec fn reconciled(
    o: NetworkedObject,
    me: SteamId,
    updates: Seq<TransformUpdate>,
    num: u32,
    den: u32,
) -> NetworkedObject {
    let nt = targets_after(o.networked_transform, o.identity.id, updates);
    if o.identity.id.owner == me {
        NetworkedObject { identity: o.identity, transform: o.transform, networked_transform: nt }
    } else {
        NetworkedObject {
            identity: o.identity,
            transform: Transform {
                translation: if nt.sync_position {
                    lerp_vec3(o.transform.translation, nt.target_position, num, den)
                } else {
                    o.transform.translation
                },
                rotation: if nt.sync_rotation {
                    lerp_quat(o.transform.rotation, nt.target_rotation, num, den)
                } else {
                    o.transform.rotation
                },
                scale: if nt.sync_scale {
                    lerp_vec3(o.transform.scale, nt.target_scale, num, den)
                } else {
                    o.transform.scale
                },
            },
            networked_transform: nt,
        }
    }
}

/// The pose sample an owner broadcasts for one object: its live channels,
/// with a disabled channel sent as absent.
pub open spec fn broadcast_payload(o: NetworkedObject, nt: NetworkedTransform) -> Seq<u8> {
    enc_data(
        crate::NetworkDataView::TransformUpdate(
            o.identity@,
            if nt.sync_position {
                Some(o.transform.translation)
            } else {
                None
            },
            if nt.sync_rotation {
                Some(o.transform.rotation)
            } else {
                None
            },
            if nt.sync_scale {
                Some(o.transform.scale)
            } else {
                None
            },
        ),
    )
}

/// How many datagrams one reconciliation pass stages: one per other member
/// for each owned object, in store order.
pub open spec fn reconcile_out_len(objs: Seq<NetworkedObject>, me: SteamId, n_targets: int) -> int
    decreases objs.len(),
{
    if objs.len() == 0 {
        0
    } else {
        reconcile_out_len(objs.drop_last(), me, n_targets) + if objs.last().identity.id.owner
            == me {
            n_targets
        } else {
            0
        }
    }
}

/// From `base` on, `ob` holds the owned objects' pose batches in store
/// order, each batch at the offset the preceding owned objects dictate.
pub open spec fn reconcile_batches_ok(
    ob: Seq<OutboundMessage>,
    base: int,
    objs: Seq<NetworkedObject>,
    me: SteamId,
    targets: Seq<SteamId>,
    updates: Seq<TransformUpdate>,
) -> bool
    decreases objs.len(),
{
    if objs.len() == 0 {
        true
    } else {
        let before = reconcile_batches_ok(ob, base, objs.drop_last(), me, targets, updates);
        if objs.last().identity.id.owner == me {
            before && batch_at(
                ob,
                base + reconcile_out_len(objs.drop_last(), me, targets.len() as int),
                targets,
                broadcast_payload(
                    objs.last(),
                    targets_after(
                        objs.last().networked_transform,
                        objs.last().identity.id,
                        updates,
                    ),
                ),
            )
        } else {
            before
        }
    }
}

proof fn lemma_reconcile_out_len_nonneg(objs: Seq<NetworkedObject>, me: SteamId, n_targets: int)
    requires
        n_targets >= 0,
    ensures
        0 <= reconcile_out_len(objs, me, n_targets),
    decreases objs.len(),
{
    if objs.len() > 0 {
        lemma_reconcile_out_len_nonneg(objs.drop_last(), me, n_targets);
    }
}

proof fn lemma_reconcile_batches_extend(
    ob1: Seq<OutboundMessage>,
    ob2: Seq<OutboundMessage>,
    base: int,
    objs: Seq<NetworkedObject>,
    me: SteamId,
    targets: Seq<SteamId>,
    updates: Seq<TransformUpdate>,
)
    requires
        reconcile_batches_ok(ob1, base, objs, me, targets, updates),
        0 <= base,
        base + reconcile_out_len(objs, me, targets.len() as int) <= ob1.len(),
        ob1.len() <= ob2.len(),
        ob2.take(ob1.len() as int) == ob1,
    ensures
        reconcile_batches_ok(ob2, base, objs, me, targets, updates),
    decreases objs.len(),
{
    if objs.len() > 0 {
        lemma_reconcile_out_len_nonneg(objs.drop_last(), me, targets.len() as int);
        lemma_reconcile_batches_extend(ob1, ob2, base, objs.drop_last(), me, targets, updates);
        if objs.last().identity.id.owner == me {
            let pos = base + reconcile_out_len(objs.drop_last(), me, targets.len() as int);
            let payload = broadcast_payload(
                objs.last(),
                targets_after(objs.last().networked_transform, objs.last().identity.id, updates),
            );
            assert forall|t: int| 0 <= t < targets.len() implies {
                let m = #[trigger] ob2[pos + t];
                &&& m.target == targets[t]
                &&& m.payload@ == payload
                &&& m.flags == SendFlags::Unreliable
            } by {
                assert(ob2.take(ob1.len() as int)[pos + t] == ob1[pos + t]);
            }
            assert(batch_at(ob2, pos, targets, payload));
        }
    }
}

impl SteamP2PClient {
    /// The exact effect of one reconciliation pass: every object pointwise
    /// reconciled against this tick's samples, the sample inbox emptied, and
    /// while in a lobby exactly one unreliable pose batch staged per owned
    /// object, in store order, sync-masked; nothing else touched.
    pub open spec fn reconcile_pass(pre: Self, post: Self, num: u32, den: u32) -> bool {
        let targets = others_of(pre.lobby_members@, pre.id);
        &&& post.wf()
        &&& post.id == pre.id
        &&& post.lobby_status == pre.lobby_status
        &&& post.lobby_owner == pre.lobby_owner
        &&& post.lobby_members@ == pre.lobby_members@
        &&& post.steam_bevy_channel == pre.steam_bevy_channel
        &&& post.instantiation_id == pre.instantiation_id
        &&& post.allocated@ == pre.allocated@
        &&& post.queued_instantiations@ == pre.queued_instantiations@
        &&& post.registered_paths@ == pre.registered_paths@
        &&& post.inbound_packets@ == pre.inbound_packets@
        &&& post.instantiation_inbox@ == pre.instantiation_inbox@
        &&& post.lobby_requests@ == pre.lobby_requests@
        &&& post.app_events@ == pre.app_events@
        &&& post.transform_updates@.len() == 0
        &&& post.objects@.len() == pre.objects@.len()
        &&& forall|k: int|
            0 <= k < pre.objects@.len() ==> post.objects@[k] == reconciled(
                pre.objects@[k],
                pre.id,
                pre.transform_updates@,
                num,
                den,
            )
        &&& post.outbound@.take(pre.outbound@.len() as int) == pre.outbound@
        &&& (pre.lobby_status is InLobby ==> post.outbound@.len() == pre.outbound@.len()
            + reconcile_out_len(pre.objects@, pre.id, targets.len() as int))
        &&& (pre.lobby_status is InLobby ==> reconcile_batches_ok(
            post.outbound@,
            pre.outbound@.len() as int,
            pre.objects@,
            pre.id,
            targets,
            pre.transform_updates@,
        ))
        &&& (pre.lobby_status is OutOfLobby ==> post.outbound@ == pre.outbound@)
    }

    /// One fixed-rate reconciliation pass with smoothing rate `num / den`:
    /// every pending sample lands in its object's targets; remote-owned
    /// objects smooth toward them; owned objects broadcast their live pose,
    /// best effort and unreliable, to the other members, exactly once each.
    /// Update and broadcast are mutually exclusive per object.
    pub fn handle_networked_transform(&mut self, num: u32, den: u32)
        requires
            old(self).wf(),
            0 < den <= 1000000,
            num <= den,
        ensures
            Self::reconcile_pass(*old(self), *final(self), num, den),
    {
        let ghost objs0 = self.objects@;
        let ghost updates0 = self.transform_updates@;
        let ghost ob0 = self.outbound@;
        let me = self.id;
        let ghost targets_g = others_of(self.lobby_members@, me);
        let n = self.objects.len();
        let u_count = self.transform_updates.len();
        let mut k: usize = 0;
        proof {
            assert(self.outbound@.take(ob0.len() as int) =~= ob0);
            assert(objs0.take(0) =~= Seq::<NetworkedObject>::empty());
        }
        while k < n
            invariant
                self.wf(),
                k <= n,
                n == objs0.len(),
                u_count == updates0.len(),
                me == self.id,
                0 < den <= 1000000,
                num <= den,
                self.id == old(self).id,
                self.lobby_status == old(self).lobby_status,
                self.lobby_owner == old(self).lobby_owner,
                self.lobby_members@ == old(self).lobby_members@,
                self.steam_bevy_channel == old(self).steam_bevy_channel,
                self.instantiation_id == old(self).instantiation_id,
                self.allocated@ == old(self).allocated@,
                self.queued_instantiations@ == old(self).queued_instantiations@,
                self.registered_paths@ == old(self).registered_paths@,
                self.inbound_packets@ == old(self).inbound_packets@,
                self.instantiation_inbox@ == old(self).instantiation_inbox@,
                self.lobby_requests@ == old(self).lobby_requests@,
                self.app_events@ == old(self).app_events@,
                self.transform_updates@ == updates0,
                objs0 == old(self).objects@,
                updates0 == old(self).transform_updates@,
                ob0 == old(self).outbound@,
                self.objects@.len() == n,
                forall|m: int|
                    0 <= m < k ==> self.objects@[m] == reconciled(objs0[m], me, updates0, num, den),
                forall|m: int| k <= m < n ==> self.objects@[m] == objs0[m],
                self.outbound@.len() >= ob0.len(),
                self.outbound@.take(ob0.len() as int) == ob0,
                targets_g == others_of(old(self).lobby_members@, me),
                self.lobby_status is InLobby ==> self.outbound@.len() == ob0.len()
                    + reconcile_out_len(objs0.take(k as int), me, targets_g.len() as int),
                self.lobby_status is InLobby ==> reconcile_batches_ok(
                    self.outbound@,
                    ob0.len() as int,
                    objs0.take(k as int),
                    me,
                    targets_g,
                    updates0,
                ),
                self.lobby_status is OutOfLobby ==> self.outbound@ == ob0,
            decreases n - k,
        {
            let identity_id = self.objects[k].identity.id;
            let mut nt = self.objects[k].networked_transform;
            let ghost nt0 = nt;
            let mut j: usize = 0;
            proof {
                assert(updates0.take(0) =~= Seq::<TransformUpdate>::empty());
            }
            while j < u_count
                invariant
                    j <= u_count,
                    u_count == self.transform_updates@.len(),
                    self.transform_updates@ == updates0,
                    nt == targets_after(nt0, identity_id, updates0.take(j as int)),
                decreases u_count - j,
            {
                proof {
                    assert(updates0.take(j as int + 1).drop_last() =~= updates0.take(j as int));
                }
                let u = &self.transform_updates[j];
                if u.network_identity.id == identity_id {
                    nt.apply_update(u.position, u.rotation, u.scale);
                }
                j = j + 1;
            }
            proof {
                assert(updates0.take(u_count as int) =~= updates0);
            }
            let owned = self.objects[k].identity.id.owner == me;
            if owned {
                let live = self.objects[k].transform;
                let new_obj = NetworkedObject {
                    identity: self.objects[k].identity.clone(),
                    transform: live,
                    networked_transform: nt,
                };
                self.objects.set(k, new_obj);
                let data = NetworkData::TransformUpdate(
                    self.objects[k].identity.clone(),
                    if nt.sync_position {
                        Some(live.translation)
                    } else {
                        None
                    },
                    if nt.sync_rotation {
                        Some(live.rotation)
                    } else {
                        None
                    },
                    if nt.sync_scale {
                        Some(live.scale)
                    } else {
                        None
                    },
                );
                let ghost prev_ob = self.outbound@;
                let ghost dv = data@;
                let _sent = self.send_message_others(data, SendFlags::Unreliable);
                proof {
                    assert(self.outbound@.take(ob0.len() as int) =~= ob0);
                    assert(objs0.take(k as int + 1).drop_last() =~= objs0.take(k as int));
                    assert(objs0.take(k as int + 1).last() == objs0[k as int]);
                    assert(nt == targets_after(
                        objs0[k as int].networked_transform,
                        objs0[k as int].identity.id,
                        updates0,
                    ));
                    let bp = broadcast_payload(objs0[k as int], nt);
                    assert(bp == enc_data(dv));
                    if self.lobby_status is InLobby {
                        lemma_reconcile_out_len_nonneg(
                            objs0.take(k as int),
                            me,
                            targets_g.len() as int,
                        );
                        let base = ob0.len() as int + reconcile_out_len(
                            objs0.take(k as int),
                            me,
                            targets_g.len() as int,
                        );
                        assert(base == prev_ob.len());
                        assert forall|t: int| 0 <= t < targets_g.len() implies {
                            let m = #[trigger] self.outbound@[base + t];
                            &&& m.target == targets_g[t]
                            &&& m.payload@ == bp
                            &&& m.flags == SendFlags::Unreliable
                        } by {
                            assert(self.outbound@[prev_ob.len() + t].payload@ == enc_data(dv));
                        }
                        assert(batch_at(self.outbound@, base, targets_g, bp));
                        lemma_reconcile_batches_extend(
                            prev_ob,
                            self.outbound@,
                            ob0.len() as int,
                            objs0.take(k as int),
                            me,
                            targets_g,
                            updates0,
                        );
                        assert(reconcile_batches_ok(
                            self.outbound@,
                            ob0.len() as int,
                            objs0.take(k as int + 1),
                            me,
                            targets_g,
                            updates0,
                        ));
                    }
                }
            } else {
                let live = self.objects[k].transform;
                let new_transform = Transform {
                    translation: if nt.sync_position {
                        crate::networked_transform::lerp_vec3_exec(
                            live.translation,
                            nt.target_position,
                            num,
                            den,
                        )
                    } else {
                        live.translation
                    },
                    rotation: if nt.sync_rotation {
                        crate::networked_transform::lerp_quat_exec(
                            live.rotation,
                            nt.target_rotation,
                            num,
                            den,
                        )
                    } else {
                        live.rotation
                    },
                    scale: if nt.sync_scale {
                        crate::networked_transform::lerp_vec3_exec(
                            live.scale,
                            nt.target_scale,
                            num,
                            den,
                        )
                    } else {
                        live.scale
                    },
                };
                let new_obj = NetworkedObject {
                    identity: self.objects[k].identity.clone(),
                    transform: new_transform,
                    networked_transform: nt,
                };
                self.objects.set(k, new_obj);
                proof {
                    assert(objs0.take(k as int + 1).drop_last() =~= objs0.take(k as int));
                    assert(objs0.take(k as int + 1).last() == objs0[k as int]);
                }
            }
            k = k + 1;
        }
        proof {
            assert(objs0.take(n as int) =~= objs0);
        }
        self.transform_updates.clear();
    }

    /// Hand the staged datagrams to the transport, leaving the stage empty.
    pub fn take_outbound(&mut self) -> (r: Vec<OutboundMessage>)
        requires
            old(self).wf(),
        ensures
            final(self).wf(),
            r@ == old(self).outbound@,
            final(self).outbound@.len() == 0,
            Self::same_session(*old(self), *final(self)),
            Self::same_replication(*old(self), *final(self)),
            Self::same_inboxes(*old(self), *final(self)),
            final(self).lobby_requests@ == old(self).lobby_requests@,
            final(self).app_events@ == old(self).app_events@,
    {
        let mut r: Vec<OutboundMessage> = Vec::new();
        core::mem::swap(&mut r, &mut self.outbound);
        r
    }

    /// Hand the pending directory operations to the application.
    pub fn take_lobby_requests(&mut self) -> (r: Vec<LobbyRequest>)
        requires
            old(self).wf(),
        ensures
            final(self).wf(),
            r@ == old(self).lobby_requests@,
            final(self).lobby_requests@.len() == 0,
            Self::same_session(*old(self), *final(self)),
            Self::same_replication(*old(self), *final(self)),
            Self::same_inboxes(*old(self), *final(self)),
            final(self).outbound@ == old(self).outbound@,
            final(self).app_events@ == old(self).app_events@,
    {
        let mut r: Vec<LobbyRequest> = Vec::new();
        core::mem::swap(&mut r, &mut self.lobby_requests);
        r
    }

    /// Hand this tick's observable effects to the application, in order.
    pub fn take_app_events(&mut self) -> (r: Vec<AppEvent>)
        requires
            old(self).wf(),
        ensures
            final(self).wf(),
            r@ == old(self).app_events@,
            final(self).app_events@.len() == 0,
            Self::same_session(*old(self), *final(self)),
            Self::same_replication(*old(self), *final(self)),
            Self::same_inboxes(*old(self), *final(self)),
            final(self).lobby_requests@ == old(self).lobby_requests@,
            final(self).outbound@ == old(self).outbound@,
    {
        let mut r: Vec<AppEvent> = Vec::new();
        core::mem::swap(&mut r, &mut self.app_events);
        r
    }

    /// One fixed tick: drain the bridge completely, dispatch every inbound
    /// envelope, resolve instantiations, retry deferred ones, then reconcile
    /// poses. All inbound work happens before any downstream effect of the
    /// tick, and the whole tick decomposes into the five passes' exact
    /// contracts, witnessed by [`Self::tick_parts`].
    pub fn run_tick(
        &mut self,
        register: &crate::networked_events::NetworkedEventRegister,
        num: u32,
        den: u32,
    )
        requires
            old(self).wf(),
            register.wf(),
            0 < den <= 1000000,
            num <= den,
        ensures
            final(self).wf(),
            final(self).id == old(self).id,
            final(self).inbound_packets@.len() == 0,
            final(self).instantiation_inbox@.len() == 0,
            final(self).transform_updates@.len() == 0,
            exists|s1: Self, s2: Self, s3: Self, s4: Self| #[trigger] Self::tick_parts(
                *old(self),
                s1,
                s2,
                s3,
                s4,
                *final(self),
                register.entries@,
                num,
                den,
            ),
    {
        self.handle_channels();
        let ghost s1 = *self;
        self.dispatch_inbound(register);
        let ghost s2 = *self;
        proof {
            assert(self.inbound_packets@.len() == 0);
        }
        self.handle_instantiate();
        let ghost s3 = *self;
        proof {
            assert(self.inbound_packets@.len() == 0);
            assert(self.instantiation_inbox@.len() == 0);
        }
        self.handle_queued_instantiations();
        let ghost s4 = *self;
        proof {
            assert(self.inbound_packets@.len() == 0);
            assert(self.instantiation_inbox@.len() == 0);
        }
        self.handle_networked_transform(num, den);
        proof {
            assert(Self::tick_parts(
                *old(self),
                s1,
                s2,
                s3,
                s4,
                *self,
                register.entries@,
                num,
                den,
            ));
        }
    }

    /// How one tick decomposes: a full bridge drain, then the exact
    /// dispatch, resolver, retry and reconciliation passes in order, each
    /// tying its post-state to its pre-state.
    pub open spec fn tick_parts(
        pre: Self,
        s1: Self,
        s2: Self,
        s3: Self,
        s4: Self,
        post: Self,
        entries: Seq<u64>,
        num: u32,
        den: u32,
    ) -> bool {
        &&& Self::channels_step(pre, s1)
        &&& Self::dispatch_pass(s1, s2, entries)
        &&& Self::resolve_pass(s2, s3)
        &&& Self::queued_pass(s3, s4)
        &&& Self::reconcile_pass(s4, post, num, den)
    }
}

/// From `base` on, `ob` holds one message with this payload for every one
/// of `targets`, consecutively and in target order.
pub open spec fn batch_at(
    ob: Seq<OutboundMessage>,
    base: int,
    targets: Seq<SteamId>,
    payload: Seq<u8>,
) -> bool {
    &&& base + targets.len() <= ob.len()
    &&& forall|t: int|
        0 <= t < targets.len() ==> {
            let m = #[trigger] ob[base + t];
            &&& m.target == targets[t]
            &&& m.payload@ == payload
            &&& m.flags == SendFlags::Unreliable
        }
}

/// One queue pass is exact: entries whose parent is present all leave the
/// queue (they are the ones handed to the resolver), and entries whose
/// parent is still missing all stay.
pub proof fn lemma_queue_pass_resolves(q: Seq<InstantiationData>, objs: Seq<NetworkedObject>)
    ensures
        forall|k: int|
            0 <= k < still_pending(q, objs).len() ==> !parent_ready(
                objs,
                #[trigger] still_pending(q, objs)[k],
            ),
        forall|k: int|
            0 <= k < q.len() && !parent_ready(objs, #[trigger] q[k]) ==> still_pending(
                q,
                objs,
            ).contains(q[k]),
        forall|k: int|
            0 <= k < q.len() && parent_ready(objs, #[trigger] q[k]) ==> now_ready(
                q,
                objs,
            ).contains(q[k]),
    decreases q.len(),
{
    if q.len() > 0 {
        lemma_queue_pass_resolves(q.drop_last(), objs);
        let rest_sp = still_pending(q.drop_last(), objs);
        let rest_nr = now_ready(q.drop_last(), objs);
        assert forall|k: int|
            0 <= k < q.len() && !parent_ready(objs, #[trigger] q[k]) implies still_pending(
            q,
            objs,
        ).contains(q[k]) by {
            if k == q.len() - 1 {
                assert(still_pending(q, objs).last() == q[k]);
                assert(still_pending(q, objs).contains(q[k]));
            } else {
                assert(q.drop_last()[k] == q[k]);
                assert(rest_sp.contains(q[k]));
                let w = choose|w: int| 0 <= w < rest_sp.len() && rest_sp[w] == q[k];
                assert(still_pending(q, objs)[w] == q[k]);
            }
        }
        assert forall|k: int|
            0 <= k < q.len() && parent_ready(objs, #[trigger] q[k]) implies now_ready(
            q,
            objs,
        ).contains(q[k]) by {
            if k == q.len() - 1 {
                assert(now_ready(q, objs).last() == q[k]);
                assert(now_ready(q, objs).contains(q[k]));
            } else {
                assert(q.drop_last()[k] == q[k]);
                assert(rest_nr.contains(q[k]));
                let w = choose|w: int| 0 <= w < rest_nr.len() && rest_nr[w] == q[k];
                assert(now_ready(q, objs)[w] == q[k]);
            }
        }
    }
}

/// Identity allocation law: the indices one client hands out are pairwise
/// distinct and strictly increasing, so the `NetworkId`s formed from them
/// with the client's fixed owner are pairwise distinct.
pub proof fn lemma_allocated_ids_distinct(c: SteamP2PClient)
    requires
        c.wf(),
    ensures
        forall|i: int, j: int|
            #![trigger c.allocated@[i], c.allocated@[j]]
            0 <= i < j < c.allocated@.len() ==> c.allocated@[i] < c.allocated@[j],
        forall|i: int, j: int|
            #![trigger c.allocated@[i], c.allocated@[j]]
            0 <= i < j < c.allocated@.len() ==> (NetworkId {
                owner: c.id,
                index: c.allocated@[i],
            }) != (NetworkId { owner: c.id, index: c.allocated@[j] }),
{
}

} // verus!
